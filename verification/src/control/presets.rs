//! EQ presets: compiled-in builtins plus the user's own, by name.
//!
//! Builtin names are protected: a user preset can neither take one nor
//! remove one. The filter chain a preset carries is opaque here (`C`); the
//! rules below only read names.

use crate::control::error::CoreError;
use crate::proto::EqPresetMeta;
use crate::text::{blank, is_blank, str_eq};
use vstd::prelude::*;
use vstd::string::*;

verus! {

pub const FLAT: &'static str = "Flat";

pub const BASS_BOOST: &'static str = "Bass Boost";

pub const VOCAL_CLARITY: &'static str = "Vocal Clarity";

pub const TREBLE: &'static str = "Treble";

/// The builtin presets' names, in the order they are listed.
pub open spec fn builtin_names() -> Seq<Seq<char>> {
    seq![FLAT@, BASS_BOOST@, VOCAL_CLARITY@, TREBLE@]
}

/// A named filter chain.
#[derive(Debug, Clone, PartialEq)]
pub struct Preset<C> {
    pub name: String,
    pub builtin: bool,
    pub chain: C,
}

pub open spec fn meta_view<C>(p: Preset<C>) -> (Seq<char>, bool) {
    (p.name@, p.builtin)
}

/// The compiled-in presets, in order, each carrying the chain given for it:
/// every one is marked builtin and named as `builtin_names` lists them.
pub fn builtins<C>(flat: C, bass_boost: C, vocal_clarity: C, treble: C) -> (r: Vec<Preset<C>>)
    ensures
        r@.len() == 4,
        forall|i: int| 0 <= i < 4 ==> #[trigger] r@[i].name@ == builtin_names()[i] && r@[i].builtin,
        r@[0].chain == flat,
        r@[1].chain == bass_boost,
        r@[2].chain == vocal_clarity,
        r@[3].chain == treble,
{
    let mut r: Vec<Preset<C>> = Vec::new();
    r.push(Preset { name: String::from_str(FLAT), builtin: true, chain: flat });
    r.push(Preset { name: String::from_str(BASS_BOOST), builtin: true, chain: bass_boost });
    r.push(Preset { name: String::from_str(VOCAL_CLARITY), builtin: true, chain: vocal_clarity });
    r.push(Preset { name: String::from_str(TREBLE), builtin: true, chain: treble });
    r
}

/// `s` without the presets called `name`, the others in order.
pub open spec fn without_name<C>(s: Seq<Preset<C>>, name: Seq<char>) -> Seq<Preset<C>>
    decreases s.len(),
{
    if s.len() == 0 {
        s
    } else {
        let rest = without_name(s.drop_first(), name);
        if s[0].name@ == name {
            rest
        } else {
            seq![s[0]] + rest
        }
    }
}

/// The first preset called `name`.
pub open spec fn find_named<C>(s: Seq<Preset<C>>, name: Seq<char>) -> Option<Preset<C>>
    decreases s.len(),
{
    if s.len() == 0 {
        None
    } else if s[0].name@ == name {
        Some(s[0])
    } else {
        find_named(s.drop_first(), name)
    }
}

pub open spec fn has_named<C>(s: Seq<Preset<C>>, name: Seq<char>) -> bool {
    exists|i: int| 0 <= i < s.len() && #[trigger] s[i].name@ == name
}

/// Whether `name` belongs to a builtin preset.
pub fn is_builtin(name: &str) -> (r: bool)
    ensures
        r == builtin_names().contains(name@),
{
    let r = str_eq(name, FLAT) || str_eq(name, BASS_BOOST) || str_eq(name, VOCAL_CLARITY) || str_eq(
        name,
        TREBLE,
    );
    proof {
        let b = builtin_names();
        if r {
            if name@ == FLAT@ {
                assert(b[0] == name@);
            } else if name@ == BASS_BOOST@ {
                assert(b[1] == name@);
            } else if name@ == VOCAL_CLARITY@ {
                assert(b[2] == name@);
            } else {
                assert(b[3] == name@);
            }
        }
    }
    r
}

proof fn lemma_without_name_step<C>(s: Seq<Preset<C>>, name: Seq<char>, i: int)
    requires
        0 <= i < s.len(),
    ensures
        without_name(s.skip(i), name) == if s[i].name@ == name {
            without_name(s.skip(i + 1), name)
        } else {
            seq![s[i]] + without_name(s.skip(i + 1), name)
        },
{
    assert(s.skip(i).drop_first() =~= s.skip(i + 1));
}

proof fn lemma_without_name_absent<C>(s: Seq<Preset<C>>, name: Seq<char>)
    ensures
        !has_named(without_name(s, name), name),
        without_name(s, name).len() <= s.len(),
        has_named(s, name) <==> without_name(s, name).len() < s.len(),
        !has_named(s, name) ==> without_name(s, name) == s,
    decreases s.len(),
{
    if s.len() > 0 {
        let rest = without_name(s.drop_first(), name);
        lemma_without_name_absent(s.drop_first(), name);
        if s[0].name@ != name {
            let w = seq![s[0]] + rest;
            if !has_named(s, name) {
                assert forall|i: int| 0 <= i < s.drop_first().len() implies #[trigger] s.drop_first()[i].name@ != name by {
                    assert(s[i + 1].name@ != name);
                }
                assert(w =~= s);
            }
            assert forall|i: int| 0 <= i < w.len() implies #[trigger] w[i].name@ != name by {
                if i > 0 {
                    assert(w[i] == rest[i - 1]);
                }
            }
            if has_named(s, name) {
                let i = choose|i: int| 0 <= i < s.len() && #[trigger] s[i].name@ == name;
                assert(s.drop_first()[i - 1].name@ == name);
            }
            if has_named(s.drop_first(), name) {
                let i = choose|i: int|
                    0 <= i < s.drop_first().len() && #[trigger] s.drop_first()[i].name@ == name;
                assert(s[i + 1].name@ == name);
            }
        } else {
            assert(s[0].name@ == name);
        }
    }
}

proof fn lemma_find_named_absent<C>(s: Seq<Preset<C>>, name: Seq<char>)
    ensures
        find_named(s, name) is None <==> !has_named(s, name),
        find_named(s, name) matches Some(p) ==> p.name@ == name && s.contains(p),
    decreases s.len(),
{
    if s.len() > 0 {
        lemma_find_named_absent(s.drop_first(), name);
        if s[0].name@ != name {
            if has_named(s, name) {
                let i = choose|i: int| 0 <= i < s.len() && #[trigger] s[i].name@ == name;
                assert(s.drop_first()[i - 1].name@ == name);
            }
            if has_named(s.drop_first(), name) {
                let i = choose|i: int|
                    0 <= i < s.drop_first().len() && #[trigger] s.drop_first()[i].name@ == name;
                assert(s[i + 1].name@ == name);
            }
            if find_named(s, name) is Some {
                let p = find_named(s, name)->0;
                let j = choose|j: int| 0 <= j < s.drop_first().len() && s.drop_first()[j] == p;
                assert(s[j + 1] == p);
            }
        } else {
            assert(s[0].name@ == name);
            assert(s[0] == s[0]);
        }
    }
}

/// Drops every preset called `name`, keeping the others in order.
fn retain_others<C>(presets: &mut Vec<Preset<C>>, name: &str)
    ensures
        final(presets)@ == without_name(old(presets)@, name@),
{
    let ghost s = presets@;
    let mut i = presets.len();
    assert(s.skip(s.len() as int) =~= Seq::<Preset<C>>::empty());
    while i > 0
        invariant
            i <= s.len(),
            presets@ == s.take(i as int) + without_name(s.skip(i as int), name@),
        decreases i,
    {
        let j = i - 1;
        proof {
            lemma_without_name_step(s, name@, j as int);
        }
        assert(presets@[j as int] == s[j as int]);
        if str_eq(presets[j].name.as_str(), name) {
            presets.remove(j);
            assert(presets@ =~= s.take(j as int) + without_name(s.skip(j as int), name@));
        } else {
            assert(presets@ =~= s.take(j as int) + without_name(s.skip(j as int), name@));
        }
        i = j;
    }
    assert(s.skip(0) =~= s);
    assert(presets@ =~= without_name(s, name@));
}

/// Saves or overwrites the user preset `name`; builtin names and blank
/// names are refused and leave the presets as they were.
pub fn save<C>(presets: &mut Vec<Preset<C>>, name: &str, chain: C) -> (r: Result<(), CoreError>)
    ensures
        builtin_names().contains(name@) ==> (r matches Err(CoreError::BuiltinPreset(n))
            && n@ == name@),
        !builtin_names().contains(name@) && is_blank(name@) ==> (r matches Err(
            CoreError::Invalid(m),
        ) && m@ == "preset name is empty"@),
        r is Err ==> final(presets)@ == old(presets)@,
        !builtin_names().contains(name@) && !is_blank(name@) ==> r is Ok,
        r is Ok ==> final(presets)@.len() > 0 && final(presets)@.drop_last() == without_name(
            old(presets)@,
            name@,
        ) && final(presets)@.last().name@ == name@ && !final(presets)@.last().builtin
            && final(presets)@.last().chain == chain,
{
    if is_builtin(name) {
        return Err(CoreError::BuiltinPreset(String::from_str(name)));
    }
    if blank(name) {
        return Err(CoreError::Invalid(String::from_str("preset name is empty")));
    }
    retain_others(presets, name);
    let ghost kept = presets@;
    presets.push(Preset { name: String::from_str(name), builtin: false, chain });
    assert(presets@.drop_last() =~= kept);
    Ok(())
}

/// Deletes the user preset `name`: refused for a builtin name, and
/// `PresetNotFound` when there is no such preset.
pub fn delete<C>(presets: &mut Vec<Preset<C>>, name: &str) -> (r: Result<(), CoreError>)
    ensures
        builtin_names().contains(name@) ==> (r matches Err(CoreError::BuiltinPreset(n))
            && n@ == name@),
        !builtin_names().contains(name@) && !has_named(old(presets)@, name@) ==> (r matches Err(
            CoreError::PresetNotFound(n),
        ) && n@ == name@),
        r is Err ==> final(presets)@ == old(presets)@,
        !builtin_names().contains(name@) && has_named(old(presets)@, name@) ==> r is Ok,
        r is Ok ==> final(presets)@ == without_name(old(presets)@, name@),
{
    if is_builtin(name) {
        return Err(CoreError::BuiltinPreset(String::from_str(name)));
    }
    let before = presets.len();
    let ghost s = presets@;
    retain_others(presets, name);
    proof {
        lemma_without_name_absent(s, name@);
    }
    if presets.len() == before {
        return Err(CoreError::PresetNotFound(String::from_str(name)));
    }
    Ok(())
}

proof fn lemma_find_named_at<C>(s: Seq<Preset<C>>, name: Seq<char>, i: int)
    requires
        0 <= i < s.len(),
        s[i].name@ == name,
        forall|j: int| 0 <= j < i ==> #[trigger] s[j].name@ != name,
    ensures
        find_named(s, name) == Some(s[i]),
    decreases i,
{
    if i > 0 {
        assert(s[0].name@ != name);
        assert forall|j: int| 0 <= j < i - 1 implies #[trigger] s.drop_first()[j].name@ != name by {
            assert(s.drop_first()[j] == s[j + 1]);
        }
        lemma_find_named_at(s.drop_first(), name, i - 1);
    }
}

/// What a listing shows: the builtins, then the user's presets.
pub fn list<C>(builtins: &Vec<Preset<C>>, user: &Vec<Preset<C>>) -> (r: Vec<EqPresetMeta>)
    ensures
        r@.len() == builtins@.len() + user@.len(),
        forall|i: int|
            0 <= i < r@.len() ==> (#[trigger] r@[i]).name@ == (builtins@ + user@)[i].name@
                && r@[i].builtin == (builtins@ + user@)[i].builtin,
{
    let ghost all = builtins@ + user@;
    let mut out: Vec<EqPresetMeta> = Vec::new();
    let nb = builtins.len();
    let mut i: usize = 0;
    while i < nb
        invariant
            nb == builtins@.len(),
            all == builtins@ + user@,
            i <= nb,
            out@.len() == i,
            forall|k: int|
                0 <= k < i ==> (#[trigger] out@[k]).name@ == all[k].name@ && out@[k].builtin
                    == all[k].builtin,
        decreases nb - i,
    {
        let p = &builtins[i];
        out.push(EqPresetMeta { name: String::from_str(p.name.as_str()), builtin: p.builtin });
        i = i + 1;
    }
    let nu = user.len();
    let mut j: usize = 0;
    while j < nu
        invariant
            nb == builtins@.len(),
            nu == user@.len(),
            all == builtins@ + user@,
            j <= nu,
            out@.len() == nb + j,
            forall|k: int|
                0 <= k < nb + j ==> (#[trigger] out@[k]).name@ == all[k].name@ && out@[k].builtin
                    == all[k].builtin,
        decreases nu - j,
    {
        let p = &user[j];
        assert(all[nb + j] == user@[j as int]);
        out.push(EqPresetMeta { name: String::from_str(p.name.as_str()), builtin: p.builtin });
        j = j + 1;
    }
    out
}

/// The first preset called `name`, builtins first; `PresetNotFound` when
/// there is none.
pub fn get<C>(mut builtins: Vec<Preset<C>>, mut user: Vec<Preset<C>>, name: &str) -> (r: Result<
    Preset<C>,
    CoreError,
>)
    ensures
        match find_named(builtins@ + user@, name@) {
            Some(p) => r == Ok::<Preset<C>, CoreError>(p),
            None => r matches Err(CoreError::PresetNotFound(n)) && n@ == name@,
        },
{
    let ghost all = builtins@ + user@;
    builtins.append(&mut user);
    let mut presets = builtins;
    assert(presets@ =~= all);
    let n = presets.len();
    let mut i: usize = 0;
    while i < n
        invariant
            n == presets@.len(),
            presets@ == all,
            i <= n,
            forall|j: int| 0 <= j < i ==> #[trigger] all[j].name@ != name@,
        ensures
            i <= n,
            presets@ == all,
            forall|j: int| 0 <= j < i ==> #[trigger] all[j].name@ != name@,
            i < n ==> all[i as int].name@ == name@,
        decreases n - i,
    {
        if str_eq(presets[i].name.as_str(), name) {
            assert(all[i as int] == presets@[i as int]);
            break;
        }
        i = i + 1;
    }
    if i < n {
        assert(all[i as int] == presets@[i as int]);
        proof {
            lemma_find_named_at(all, name@, i as int);
        }
        let p = presets.remove(i);
        return Ok(p);
    }
    proof {
        lemma_find_named_absent(all, name@);
    }
    Err(CoreError::PresetNotFound(String::from_str(name)))
}

/// A saved preset is what a lookup by its name finds next, provided no
/// builtin carries that name.
pub proof fn lemma_saved_preset_is_found<C>(
    builtins: Seq<Preset<C>>,
    before: Seq<Preset<C>>,
    after: Seq<Preset<C>>,
    name: Seq<char>,
)
    requires
        !has_named(builtins, name),
        after.len() > 0,
        after.drop_last() == without_name(before, name),
        after.last().name@ == name,
    ensures
        find_named(builtins + after, name) == Some(after.last()),
{
    lemma_without_name_absent(before, name);
    let all = builtins + after;
    let i = all.len() - 1;
    assert forall|j: int| 0 <= j < i implies #[trigger] all[j].name@ != name by {
        if j < builtins.len() {
            assert(all[j] == builtins[j]);
        } else {
            assert(all[j] == after.drop_last()[j - builtins.len()]);
        }
    }
    lemma_find_named_at(all, name, i);
}

/// After a deletion no preset of that name is left.
pub proof fn lemma_deleted_preset_is_gone<C>(before: Seq<Preset<C>>, name: Seq<char>)
    ensures
        !has_named(without_name(before, name), name),
{
    lemma_without_name_absent(before, name);
}

} // verus!
