use penguinwave::proto::PwError;
use penguinwave::control::params::{coefficient_params, Biquad};
use penguinwave::control::sinks::{clamp_percent, managed_only};
use penguinwave::control::user_devices::{add_user_device, remove_user_device};
use penguinwave::events::{change_events, Event};
use penguinwave::hid::registry::DeviceChange;
use penguinwave::proto::{DeviceId, EqChain, EqState, Request, SinkInfo, StreamRef, UserDevice};
use penguinwave::control::bands::{
    add_band, remove_band, set_band, set_chain_enabled, BandList, MAX_BANDS,
};
use penguinwave::control::chatmix::{sink_volumes, ChatMixState};
use penguinwave::control::config::ConfigStore;
use penguinwave::control::error::CoreError;
use penguinwave::control::nodes::{
    chain_for_sink, is_managed_node, output_node_name, sink_node_name, source_sink_for,
};
use penguinwave::control::presets::{delete, get, is_builtin, list, save, Preset};
use penguinwave::control::process::{
    chain_not_found, node_wait, CrashTracker, NodeWait, SuperviseAction, CRASH_WINDOW_NANOS,
};
use penguinwave::control::routes::{restore_via, should_restore, Routes};
use penguinwave::control::sinks::{missing_sinks, sinks_ready};
use penguinwave::control::dispatch::{plan, then_event, Call, Then};
use penguinwave::control::eq_life::{EqLife, EqStep};
use penguinwave::control::wiring::{
    current_device_target, fallback_output_device, reject_managed, route_eq_output, same_port,
    start_chain_wiring, targets_of, wire_direct, wire_through_eq, GraphStep,
};
use penguinwave::hid::arctis_nova_7::chatmix_from_raw;
use penguinwave::proto::{all_chains, ChatMix, EqChainId, ErrorKind, Link, PortRef, CHAT_SINK, GAME_SINK};
use std::time::Duration;

fn port(node: &str, name: &str) -> PortRef {
    PortRef {
        node_name: node.to_string(),
        port_name: name.to_string(),
        id: None,
    }
}

fn link(from: PortRef, to: PortRef) -> Link {
    Link {
        source: from,
        target: to,
    }
}

fn strings(v: &[&str]) -> Vec<String> {
    v.iter().map(|s| s.to_string()).collect()
}

const HEADSET_SINK: &str = "alsa_output.usb-SteelSeries_Arctis_Nova_7-00.analog-stereo";

#[test]
fn managed_nodes_are_never_output_targets() {
    assert!(is_managed_node(GAME_SINK));
    assert!(is_managed_node(CHAT_SINK));
    assert!(is_managed_node("penguinwave_eq_game"));
    assert!(is_managed_node("penguinwave_eq_chat_out"));
    assert!(!is_managed_node(
        "alsa_output.usb-SteelSeries_Arctis_Nova_7-00.analog-stereo"
    ));
}

#[test]
fn every_chain_maps_back_from_its_sink() {
    for c in all_chains() {
        assert_eq!(chain_for_sink(source_sink_for(c)), Some(c));
    }
    assert_eq!(chain_for_sink("alsa_output.x"), None);
}

#[test]
fn chain_node_names() {
    assert_eq!(sink_node_name(EqChainId::Game), "penguinwave_eq_game");
    assert_eq!(output_node_name(EqChainId::Chat), "penguinwave_eq_chat_out");
    assert_eq!(source_sink_for(EqChainId::Chat), "chat_sink");
}

#[test]
fn crash_tracker_trips_at_limit() {
    let mut tracker = CrashTracker::default();
    assert!(!tracker.record_exit());
    assert!(!tracker.record_exit());
    assert!(tracker.record_exit());
}

#[test]
fn backoff_grows_then_caps() {
    let mut tracker = CrashTracker::default();
    let expected = [1, 2, 4, 4];
    for want in expected {
        tracker.record_exit();
        assert_eq!(
            Duration::from_secs(tracker.backoff()),
            Duration::from_secs(want)
        );
    }
}

#[test]
fn exits_outside_the_window_are_forgotten() {
    let mut tracker = CrashTracker::new();
    assert_eq!(tracker.backoff(), 1);
    assert!(!tracker.record_exit_at(0));
    assert!(!tracker.record_exit_at(1_000));
    // The first two exits are now a full window old.
    assert!(!tracker.record_exit_at(CRASH_WINDOW_NANOS + 1_000));
    assert_eq!(tracker.backoff(), 1);
    assert!(!tracker.record_exit_at(CRASH_WINDOW_NANOS + 2_000));
    assert!(tracker.record_exit_at(CRASH_WINDOW_NANOS + 3_000));
    assert_eq!(tracker.backoff(), 4);
}

#[test]
fn the_wheel_drives_both_sink_volumes() {
    let mut mix = ChatMixState::new();
    let wheel = chatmix_from_raw(100, 0);
    let next = mix.wheel_target(wheel).expect("the wheel moved");
    mix.commit(next);
    assert_eq!(sink_volumes(next), (100, 0));
    assert_eq!(mix.state().value, 100);
}

#[test]
fn an_unchanged_wheel_writes_nothing() {
    let mut mix = ChatMixState::new();
    let wheel = chatmix_from_raw(50, 50);
    assert_eq!(mix.wheel_target(wheel), None);
    assert_eq!(mix.wheel_target(wheel), None);
    assert_eq!(mix.state(), ChatMix { value: 50, manual: false });
    mix.commit(mix.state());
}

#[test]
fn a_manual_value_pins_the_balance_against_the_wheel() {
    let mut mix = ChatMixState::new();
    let wheel = chatmix_from_raw(100, 0);

    let pinned = mix.manual_target(Some(20));
    mix.commit(pinned);
    assert!(mix.state().manual);
    assert_eq!(mix.state().value, 20);

    assert_eq!(mix.wheel_target(wheel), None);
    assert_eq!(mix.state().value, 20);

    let released = mix.manual_target(None);
    mix.commit(released);
    let next = mix.wheel_target(wheel).expect("the wheel takes over again");
    mix.commit(next);
    assert_eq!(mix.state().value, 100);
}

#[test]
fn a_manual_value_is_clamped() {
    let mut mix = ChatMixState::new();
    let pinned = mix.manual_target(Some(240));
    mix.commit(pinned);
    assert_eq!(mix.state().value, 100);
    assert_eq!(sink_volumes(mix.state()), (100, 0));
}

#[test]
fn sink_volumes_split_the_balance() {
    assert_eq!(sink_volumes(ChatMix { value: 30, manual: true }), (30, 70));
    assert_eq!(sink_volumes(ChatMix { value: 0, manual: false }), (0, 100));
}

#[test]
fn reconcile_creates_only_the_missing_sinks() {
    assert_eq!(missing_sinks(&strings(&[])), vec![GAME_SINK, CHAT_SINK]);
    assert_eq!(missing_sinks(&strings(&["game_sink", "x"])), vec![CHAT_SINK]);
    assert!(missing_sinks(&strings(&["chat_sink", "game_sink"])).is_empty());
    assert!(sinks_ready(&strings(&["chat_sink", "game_sink"])));
    assert!(!sinks_ready(&strings(&["chat_sink"])));
}

#[test]
fn a_route_reads_back_what_was_set() {
    let mut routes = Routes::default();
    assert_eq!(routes.get("game_sink"), None);

    routes.set("game_sink", "alsa_output.a");
    routes.set("chat_sink", "alsa_output.b");
    assert_eq!(routes.get("game_sink").map(|s| s.as_str()), Some("alsa_output.a"));
    assert_eq!(routes.get("chat_sink").map(|s| s.as_str()), Some("alsa_output.b"));

    routes.set("game_sink", "bluez_output.c");
    assert_eq!(routes.get("game_sink").map(|s| s.as_str()), Some("bluez_output.c"));
    assert_eq!(routes.entries().len(), 2);

    routes.remove("game_sink");
    assert_eq!(routes.get("game_sink"), None);
    assert_eq!(routes.get("chat_sink").map(|s| s.as_str()), Some("alsa_output.b"));
    routes.remove("nothing_here");
    assert_eq!(routes.entries().len(), 1);
}

#[test]
fn routes_are_kept_in_sink_order() {
    let mut routes = Routes::new();
    routes.set("zeta", "d1");
    routes.set("alpha", "d2");
    routes.set("mid", "d3");
    let keys: Vec<&str> = routes.entries().iter().map(|(k, _)| k.as_str()).collect();
    assert_eq!(keys, vec!["alpha", "mid", "zeta"]);
}

#[test]
fn only_a_dangling_present_route_is_restored() {
    let present = strings(&["game_sink", "alsa_output.a"]);
    assert!(should_restore(&present, "game_sink", "alsa_output.a", false));
    assert!(!should_restore(&present, "game_sink", "alsa_output.a", true));
    assert!(!should_restore(&present, "game_sink", "alsa_output.gone", false));
    assert!(!should_restore(&present, "chat_sink", "alsa_output.a", false));
    assert_eq!(restore_via("game_sink", true), Some(EqChainId::Game));
    assert_eq!(restore_via("game_sink", false), None);
    assert_eq!(restore_via("my_sink", true), None);
}

#[test]
fn config_paths_hang_off_the_root() {
    let store = ConfigStore::new("/home/u/.config/penguinwave");
    assert_eq!(store.root(), "/home/u/.config/penguinwave");
    assert_eq!(store.eq_dir(), "/home/u/.config/penguinwave/eq");
    assert_eq!(
        store.eq_state_path(),
        "/home/u/.config/penguinwave/eq/state.json"
    );
    assert_eq!(
        store.eq_conf_path(),
        "/home/u/.config/penguinwave/eq/penguinwave-eq.conf"
    );
    assert_eq!(
        store.presets_path(),
        "/home/u/.config/penguinwave/eq/presets.json"
    );
    assert_eq!(
        store.safe_mode_marker(),
        "/home/u/.config/penguinwave/eq/.safe_mode"
    );
    assert_eq!(
        store.devices_path(),
        "/home/u/.config/penguinwave/devices.toml"
    );
    assert_eq!(
        store.routes_path(),
        "/home/u/.config/penguinwave/routes.json"
    );
}

#[test]
fn the_default_root_prefers_xdg_then_home_then_temp() {
    assert_eq!(
        ConfigStore::default_root(Some("/x/cfg"), Some("/home/u"), "/tmp"),
        "/x/cfg/penguinwave"
    );
    assert_eq!(
        ConfigStore::default_root(None, Some("/home/u"), "/tmp"),
        "/home/u/.config/penguinwave"
    );
    assert_eq!(
        ConfigStore::default_root(None, None, "/tmp/"),
        "/tmp/penguinwave"
    );
    assert_eq!(
        ConfigStore::from_env(None, Some("/h"), "/tmp").root(),
        "/h/.config/penguinwave"
    );
}

fn preset(name: &str, builtin: bool, chain: i32) -> Preset<i32> {
    Preset {
        name: name.to_string(),
        builtin,
        chain,
    }
}

fn builtins() -> Vec<Preset<i32>> {
    vec![
        preset("Flat", true, 0),
        preset("Bass Boost", true, 1),
        preset("Vocal Clarity", true, 2),
        preset("Treble", true, 3),
    ]
}

#[test]
fn presets_round_trip_and_builtins_are_protected() {
    let mut user: Vec<Preset<i32>> = Vec::new();

    save(&mut user, "Mine", -5).unwrap();
    assert!(list(&builtins(), &user).iter().any(|p| p.name == "Mine"));
    assert!(save(&mut user, "Flat", 7).is_err());
    assert!(delete(&mut user, "Flat").is_err());

    let found = get(builtins(), user.clone(), "Mine").unwrap();
    assert_eq!(found.chain, -5);
    assert!(!found.builtin);

    delete(&mut user, "Mine").unwrap();
    assert!(delete(&mut user, "Mine").is_err());
}

#[test]
fn saving_overwrites_and_errors_say_why() {
    let mut user = vec![preset("A", false, 1), preset("B", false, 2)];
    save(&mut user, "A", 9).unwrap();
    assert_eq!(user, vec![preset("B", false, 2), preset("A", false, 9)]);

    assert_eq!(
        save(&mut user, "Treble", 0),
        Err(CoreError::BuiltinPreset("Treble".to_string()))
    );
    assert_eq!(
        save(&mut user, "  ", 0),
        Err(CoreError::Invalid("preset name is empty".to_string()))
    );
    assert_eq!(
        delete(&mut user, "C"),
        Err(CoreError::PresetNotFound("C".to_string()))
    );
    assert_eq!(
        get(builtins(), user.clone(), "C").unwrap_err().message(),
        "preset \"C\" not found"
    );
    assert_eq!(user.len(), 2);
    assert!(is_builtin("Vocal Clarity"));
    assert!(!is_builtin("vocal clarity"));
}

#[test]
fn listing_puts_builtins_first() {
    let user = vec![preset("Mine", false, 1)];
    let metas = list(&builtins(), &user);
    let names: Vec<&str> = metas.iter().map(|m| m.name.as_str()).collect();
    assert_eq!(names, vec!["Flat", "Bass Boost", "Vocal Clarity", "Treble", "Mine"]);
    assert!(metas[0].builtin);
    assert!(!metas[4].builtin);
}

#[test]
fn a_full_chain_refuses_more_bands() {
    let mut chain = BandList {
        enabled: true,
        bands: vec![0; 3],
    };
    while chain.bands.len() < MAX_BANDS {
        add_band(false, &mut chain, 1_000).unwrap();
    }
    let before = chain.clone();
    let err = add_band(false, &mut chain, 1_000).unwrap_err();
    assert_eq!(err, CoreError::Invalid("chain already holds 10 bands".to_string()));
    assert_eq!(chain, before);
}

#[test]
fn out_of_range_band_index_is_rejected() {
    let mut chain = BandList {
        enabled: true,
        bands: vec![1, 2, 3],
    };
    assert_eq!(
        set_band(false, &mut chain, 99, 7),
        Err(CoreError::Invalid("band index 99 out of range".to_string()))
    );
    assert!(remove_band(false, &mut chain, 99).is_err());
    assert_eq!(chain.bands, vec![1, 2, 3]);
}

#[test]
fn band_edits_land_where_asked() {
    let mut chain = BandList {
        enabled: false,
        bands: vec![1, 2, 3],
    };
    assert_eq!(set_band(false, &mut chain, 1, 20), Ok(false));
    assert_eq!(add_band(false, &mut chain, 4), Ok((3, false)));
    assert_eq!(chain.bands, vec![1, 20, 3, 4]);
    remove_band(false, &mut chain, 0).unwrap();
    assert_eq!(chain.bands, vec![20, 3, 4]);
    set_chain_enabled(false, &mut chain, true).unwrap();
    assert!(chain.enabled);
}

#[test]
fn safe_mode_blocks_mutations_until_reset() {
    let mut chain = BandList {
        enabled: true,
        bands: vec![1],
    };
    let safe = Err(CoreError::Invalid("EQ is in safe mode".to_string()));
    assert_eq!(set_band(true, &mut chain, 0, 5), safe.clone().map(|_: ()| true));
    assert!(add_band(true, &mut chain, 5).is_err());
    assert_eq!(remove_band(true, &mut chain, 0), safe.clone());
    assert_eq!(set_chain_enabled(true, &mut chain, false), safe);
    assert_eq!(chain.bands, vec![1]);
    assert!(chain.enabled);
}

#[test]
fn routing_the_eq_into_a_managed_node_is_refused() {
    let links: Vec<Link> = Vec::new();
    for node in ["game_sink", "chat_sink", "penguinwave_eq_game_out"] {
        assert!(
            route_eq_output(&links, EqChainId::Game, node).is_err(),
            "accepted {node}"
        );
        assert!(wire_through_eq(&links, EqChainId::Game, node).is_err());
    }
    let err = reject_managed("game_sink").unwrap_err();
    assert_eq!(
        err.message(),
        "refusing to route EQ into managed node \"game_sink\": feedback loop"
    );
    assert_eq!(err.to_wire().kind, ErrorKind::BadRequest);
    assert!(reject_managed(HEADSET_SINK).is_ok());
}

#[test]
fn ports_match_by_id_when_both_have_one() {
    let mut a = port("n", "p");
    let mut b = port("n", "p");
    assert!(same_port(&a, &b));
    a.id = Some(4);
    assert!(same_port(&a, &b));
    b.id = Some(5);
    assert!(!same_port(&a, &b));
    let c = PortRef {
        node_name: "other".to_string(),
        port_name: "q".to_string(),
        id: Some(4),
    };
    assert!(same_port(&a, &c));
}

#[test]
fn targets_follow_the_links_from_a_port() {
    let links = vec![
        link(port("a", "out"), port("b", "in")),
        link(port("x", "out"), port("y", "in")),
        link(port("a", "out"), port("c", "in")),
    ];
    let t = targets_of(&links, &port("a", "out"));
    assert_eq!(t, vec![port("b", "in"), port("c", "in")]);
    assert!(targets_of(&links, &port("b", "in")).is_empty());
}

#[test]
fn a_fallback_output_is_a_real_device() {
    let sinks = strings(&["game_sink", "auto_null", "bluez_output.x", "alsa_output.y"]);
    assert_eq!(
        fallback_output_device(Some("alsa_output.def"), Some(&sinks)),
        Some("alsa_output.def".to_string())
    );
    assert_eq!(
        fallback_output_device(Some("game_sink"), Some(&sinks)),
        Some("bluez_output.x".to_string())
    );
    assert_eq!(
        fallback_output_device(Some("auto_null"), None),
        None
    );
    assert_eq!(
        fallback_output_device(None, Some(&strings(&["game_sink"]))),
        None
    );
}

#[test]
fn the_current_target_prefers_the_eq_output() {
    let through_eq = vec![link(
        port("penguinwave_eq_game_out", "output_FL"),
        port(HEADSET_SINK, "playback_FL"),
    )];
    assert_eq!(
        current_device_target(&through_eq, EqChainId::Game),
        Some(HEADSET_SINK.to_string())
    );
    let direct = vec![
        link(port("game_sink", "monitor_FL"), port("penguinwave_eq_game", "input_FL")),
        link(port("game_sink", "monitor_FL"), port("bluez_output.z", "playback_FL")),
    ];
    assert_eq!(
        current_device_target(&direct, EqChainId::Game),
        Some("bluez_output.z".to_string())
    );
    assert_eq!(current_device_target(&direct, EqChainId::Chat), None);
}

#[test]
fn init_recovers_from_a_stale_eq_output_pointed_at_a_managed_node() {
    // The orphan: the EQ output left wired into game_sink by a killed daemon.
    let links = vec![link(
        port("penguinwave_eq_game_out", "output_FL"),
        port("game_sink", "playback_FL"),
    )];
    // A managed node is never trusted as the current target ...
    assert_eq!(current_device_target(&links, EqChainId::Game), None);
    // ... so the chain falls back to the real output device.
    let sinks = strings(&["game_sink", "chat_sink", HEADSET_SINK]);
    let steps = start_chain_wiring(&links, &links, EqChainId::Game, None, Some(&sinks)).unwrap();
    let targets: Vec<String> = steps
        .iter()
        .filter_map(|s| match s {
            GraphStep::Link { source, target } if source.node_name == "penguinwave_eq_game_out" => {
                Some(target.node_name.clone())
            }
            _ => None,
        })
        .collect();
    assert!(targets.iter().any(|n| n == HEADSET_SINK), "never reached a real device: {targets:?}");
    assert!(!targets.iter().any(|n| n == "game_sink"), "stale target kept: {targets:?}");
    assert_eq!(
        steps,
        vec![
            GraphStep::Link {
                source: port("game_sink", "monitor_FL"),
                target: port("penguinwave_eq_game", "input_FL"),
            },
            GraphStep::Unlink {
                source: port("penguinwave_eq_game_out", "output_FL"),
                target: port("game_sink", "playback_FL"),
            },
            GraphStep::Link {
                source: port("penguinwave_eq_game_out", "output_FL"),
                target: port(HEADSET_SINK, "playback_FL"),
            },
            GraphStep::Link {
                source: port("game_sink", "monitor_FR"),
                target: port("penguinwave_eq_game", "input_FR"),
            },
            GraphStep::Link {
                source: port("penguinwave_eq_game_out", "output_FR"),
                target: port(HEADSET_SINK, "playback_FR"),
            },
        ]
    );
}

#[test]
fn direct_wiring_drops_the_eq_input_link() {
    let links = vec![
        link(port("chat_sink", "monitor_FL"), port("penguinwave_eq_chat", "input_FL")),
        link(port("chat_sink", "monitor_FR"), port(HEADSET_SINK, "playback_FR")),
    ];
    let steps = wire_direct(&links, EqChainId::Chat, HEADSET_SINK);
    assert_eq!(
        steps,
        vec![
            GraphStep::Unlink {
                source: port("chat_sink", "monitor_FL"),
                target: port("penguinwave_eq_chat", "input_FL"),
            },
            GraphStep::Link {
                source: port("chat_sink", "monitor_FL"),
                target: port(HEADSET_SINK, "playback_FL"),
            },
            GraphStep::Link {
                source: port("chat_sink", "monitor_FR"),
                target: port(HEADSET_SINK, "playback_FR"),
            },
        ]
    );
}

#[test]
fn user_devices_add_reject_duplicates_and_remove() {
    let dev = |name: &str| UserDevice {
        name: name.to_string(),
        vendor_id: Some("1038".to_string()),
        product_id: None,
        pipewire_sink: None,
    };
    let mut devices = Vec::new();
    add_user_device(&mut devices, dev("Mine")).unwrap();
    assert_eq!(
        add_user_device(&mut devices, dev("Mine")),
        Err(CoreError::Invalid(
            "a user device named \"Mine\" already exists".to_string()
        ))
    );
    add_user_device(&mut devices, dev("Other")).unwrap();
    assert_eq!(devices.len(), 2);
    remove_user_device(&mut devices, "Mine").unwrap();
    assert_eq!(devices, vec![dev("Other")]);
    let err = remove_user_device(&mut devices, "Mine").unwrap_err();
    assert_eq!(err, CoreError::NotFoundUserDevice("Mine".to_string()));
    assert_eq!(err.message(), "user device \"Mine\" not found");
    assert_eq!(err.to_wire().kind, ErrorKind::NotFound);
}

#[test]
fn removing_the_band_just_added_restores_the_chain() {
    let mut chain = BandList {
        enabled: true,
        bands: vec![5, 6],
    };
    let before = chain.clone();
    let (index, enabled) = add_band(false, &mut chain, 7).unwrap();
    assert_eq!((index, enabled), (2, true));
    remove_band(false, &mut chain, index).unwrap();
    assert_eq!(chain, before);
}

#[test]
fn list_custom_returns_only_managed_sinks() {
    let sink = |name: &str, managed: bool| SinkInfo {
        name: name.to_string(),
        volume: 50,
        is_muted: false,
        managed,
    };
    let all = vec![sink("game_sink", true), sink("alsa_output.x", false), sink("chat_sink", true)];
    assert_eq!(
        managed_only(all),
        vec![sink("game_sink", true), sink("chat_sink", true)]
    );
    assert_eq!(clamp_percent(250), 100);
    assert_eq!(clamp_percent(42), 42);
}

#[test]
fn device_changes_are_published() {
    let id = DeviceId::new(0x1038, 0x2202);
    let events = change_events::<f32>(&vec![DeviceChange::Attached(id), DeviceChange::Detached(id)]);
    assert_eq!(
        events,
        vec![
            Event::DeviceAttached { device: id },
            Event::DeviceDetached { device: id }
        ]
    );
    let names: Vec<&str> = events.iter().map(|e| e.name()).collect();
    assert_eq!(names, ["device.attached", "device.detached"]);
}

#[test]
fn the_supervisor_respawns_then_gives_up() {
    let mut tracker = CrashTracker::new();
    assert_eq!(tracker.supervise(false, true), SuperviseAction::Stop);
    assert_eq!(tracker.supervise(true, false), SuperviseAction::Wait);
    assert_eq!(
        tracker.supervise(true, true),
        SuperviseAction::Respawn { after_secs: 1 }
    );
    assert_eq!(
        tracker.supervise(true, true),
        SuperviseAction::Respawn { after_secs: 2 }
    );
    assert_eq!(tracker.supervise(true, true), SuperviseAction::EnterSafeMode);
}

#[test]
fn waiting_for_nodes_times_out() {
    assert_eq!(
        node_wait(Some(1), Some(2), 10, 5),
        NodeWait::Ready { game: 1, chat: 2 }
    );
    assert_eq!(node_wait(Some(1), None, 4, 5), NodeWait::Retry);
    assert_eq!(
        node_wait(None, None, 5, 5),
        NodeWait::TimedOut(CoreError::NodeNotFound(
            "timed out waiting for EQ filter-chain nodes".to_string()
        ))
    );
    assert_eq!(
        chain_not_found(EqChainId::Chat).message(),
        "node \"Chat chain\" not found in the graph"
    );
}

#[test]
fn chatmix_manual_can_be_set_and_released() {
    let mut mix = ChatMixState::new();
    let pinned = mix.manual_target(Some(30));
    mix.commit(pinned);
    assert!(pinned.manual);
    assert_eq!(pinned.value, 30);

    let released = mix.manual_target(None);
    mix.commit(released);
    assert!(!released.manual);
    assert_eq!(released.value, 30);
}

#[test]
fn coefficient_params_shape() {
    let identity = Biquad {
        b0: 1.0f32,
        b1: 0.0,
        b2: 0.0,
        a1: 0.0,
        a2: 0.0,
    };
    let params = coefficient_params("eq_b3", &identity);
    assert_eq!(params.len(), 5);
    assert_eq!(params[0], ("eq_b3:b0".to_string(), 1.0));
    assert_eq!(params[3], ("eq_b3:a1".to_string(), 0.0));
    assert_eq!(params[4].0, "eq_b3:a2");
}

#[test]
fn volumes_are_clamped_before_reaching_the_backend() {
    assert_eq!(clamp_percent(250), 100);
    assert_eq!(clamp_percent(100), 100);
    assert_eq!(clamp_percent(0), 0);
}

#[test]
fn routing_a_managed_sink_follows_through_to_the_eq() {
    let device = "alsa_output.pci-0000_00_1f.3.analog-stereo";
    let chain = restore_via("game_sink", true).expect("a managed sink follows the EQ");
    let steps = route_eq_output(&Vec::new(), chain, device).unwrap();
    assert!(steps
        .iter()
        .any(|s| matches!(s, GraphStep::Link { target, .. } if target.node_name == device)));
}

#[test]
fn routing_an_unmanaged_sink_leaves_the_eq_alone() {
    assert_eq!(restore_via("some_other_sink", true), None);
}

#[test]
fn a_backend_failure_maps_to_a_wire_error() {
    let wire = PwError {
        kind: ErrorKind::PipeWireUnavailable,
        msg: "pactl: connection refused".to_string(),
        retryable: true,
        supported: None,
    };
    let e = CoreError::Wire(wire.clone());
    assert_eq!(e.to_wire(), wire);
    assert_eq!(e.message(), "pactl: connection refused");
}

#[test]
fn reconcile_adopts_existing_sinks_instead_of_recreating_them() {
    let existing = strings(&["alsa_output.x", "game_sink", "chat_sink"]);
    assert!(sinks_ready(&existing));
    assert!(missing_sinks(&existing).is_empty());
}

#[test]
fn polling_without_a_headset_is_not_an_error() {
    let mix = ChatMixState::new();
    assert_eq!(mix.poll_device(None), None);
}

#[test]
fn setting_a_band_pushes_only_that_node() {
    let mut chain = BandList {
        enabled: true,
        bands: vec![0.0f32; 3],
    };
    // An enabled chain asks for the one band's node to be pushed.
    assert_eq!(set_band(false, &mut chain, 0, 6.0), Ok(true));
    let identity = Biquad {
        b0: 1.0f32,
        b1: 0.0,
        b2: 0.0,
        a1: 0.0,
        a2: 0.0,
    };
    assert_eq!(coefficient_params("eq_b0", &identity).len(), 5);
}

#[test]
fn a_stale_eq_output_gives_way_to_the_direct_link_or_the_remembered_route() {
    let links = vec![
        link(port("penguinwave_eq_game_out", "output_FL"), port("chat_sink", "playback_FL")),
        link(port("game_sink", "monitor_FL"), port("bluez_output.z", "playback_FL")),
    ];
    assert_eq!(
        current_device_target(&links, EqChainId::Game),
        Some("bluez_output.z".to_string())
    );
    let steps = start_chain_wiring(&links, &links, EqChainId::Game, Some(HEADSET_SINK), None).unwrap();
    assert!(steps.contains(&GraphStep::Link {
        source: port("penguinwave_eq_game_out", "output_FL"),
        target: port("bluez_output.z", "playback_FL"),
    }));
    // Nothing remembered and no real output anywhere: nothing to wire.
    assert_eq!(start_chain_wiring(&links, &links, EqChainId::Chat, Some("game_sink"), None), None);
}

#[test]
fn the_dispatcher_plans_each_request() {
    let stream = StreamRef { index: 7, app_name: "game".to_string(), pid: None };
    match plan::<f32>(Request::StreamSetVolume { stream: stream.clone(), pct: 250 }) {
        Ok((Call::SetStreamVolume { stream: s, pct }, Then::PublishStreams)) => {
            assert_eq!(s, stream);
            assert_eq!(pct, 100);
        }
        other => panic!("unexpected {other:?}"),
    }
    assert!(matches!(
        plan::<f32>(Request::StreamUnassign { stream }),
        Ok((Call::MoveStreamToDefault { .. }, Then::PublishStreams))
    ));
    assert!(matches!(
        plan::<f32>(Request::DeviceSetSelected { device: None }),
        Ok((Call::ClearSelection, Then::Selected))
    ));
    assert!(matches!(
        plan::<f32>(Request::SinkListCustom),
        Ok((Call::ListSinks, Then::ManagedSinks))
    ));
    assert!(matches!(
        plan::<f32>(Request::SystemInstallUdev),
        Ok((Call::CheckUdev, Then::Direct))
    ));
    assert!(matches!(
        plan::<f32>(Request::EqRemoveBand { chain: EqChainId::Chat, index: 3 }),
        Ok((Call::EqRemoveBand { chain: EqChainId::Chat, index: 3 }, Then::EqState))
    ));
    match plan::<f32>(Request::SessionSubscribe { events: vec![] }) {
        Err(e) => assert_eq!(e.message(), "session methods are handled by the daemon"),
        other => panic!("unexpected {other:?}"),
    }
}

#[test]
fn the_builtin_presets_carry_their_names_and_chains() {
    let p = penguinwave::control::presets::builtins(0, 1, 2, 3);
    let names: Vec<&str> = p.iter().map(|p| p.name.as_str()).collect();
    assert_eq!(names, ["Flat", "Bass Boost", "Vocal Clarity", "Treble"]);
    assert!(p.iter().all(|p| p.builtin));
    let chains: Vec<i32> = p.iter().map(|p| p.chain).collect();
    assert_eq!(chains, [0, 1, 2, 3]);
}

#[test]
fn an_eq_state_lists_each_chain_once() {
    let chain = |enabled: bool| EqChain::<f32> { enabled, preamp_db: 0.0, bands: vec![] };
    let mut st = EqState::<f32>::new(true);
    assert!(st.safe_mode && st.chains.is_empty());
    st.insert_chain(EqChainId::Game, chain(true));
    st.insert_chain(EqChainId::Chat, chain(true));
    st.insert_chain(EqChainId::Game, chain(false));
    assert_eq!(st.chains.len(), 2);
    assert_eq!(st.chains[0].0, EqChainId::Game);
    assert!(!st.chains[0].1.enabled);
    assert_eq!(st.chains[1].0, EqChainId::Chat);
}

/// Applies the steps to a list of links the way the graph does: an unlink
/// drops the matching links, a link adds one.
fn apply(links: &mut Vec<Link>, steps: &[GraphStep]) {
    for s in steps {
        match s {
            GraphStep::Unlink { source, target } => {
                links.retain(|l| !(same_port(&l.source, source) && same_port(&l.target, target)))
            }
            GraphStep::Link { source, target } => links.push(link(source.clone(), target.clone())),
        }
    }
}

#[test]
fn after_wiring_the_eq_output_feeds_only_the_device() {
    let mut links = vec![
        link(port("penguinwave_eq_game_out", "output_FL"), port("game_sink", "playback_FL")),
        link(port("penguinwave_eq_game_out", "output_FR"), port("bluez_output.old", "playback_FR")),
        link(port("game_sink", "monitor_FL"), port("bluez_output.old", "playback_FL")),
    ];
    let steps = wire_through_eq(&links, EqChainId::Game, HEADSET_SINK).unwrap();
    apply(&mut links, &steps);
    for ch in ["FL", "FR"] {
        let out = port("penguinwave_eq_game_out", &format!("output_{ch}"));
        let targets: Vec<&PortRef> =
            links.iter().filter(|l| same_port(&l.source, &out)).map(|l| &l.target).collect();
        assert_eq!(targets, vec![&port(HEADSET_SINK, &format!("playback_{ch}"))]);
        let monitor = port("game_sink", &format!("monitor_{ch}"));
        assert!(links
            .iter()
            .filter(|l| same_port(&l.source, &monitor))
            .all(|l| l.target.node_name == "penguinwave_eq_game"));
    }
}

#[test]
fn errors_carry_a_retryable_flag_and_an_exit_code() {
    let mut presets: Vec<Preset<i32>> = vec![];
    let e = delete(&mut presets, "Flat").unwrap_err().to_wire();
    assert_eq!(e.kind, ErrorKind::BadRequest);
    assert!(!e.retryable);
    assert_eq!(e.kind.exit_code(), 4);
    assert_eq!(e.supported, None);
}

#[test]
fn the_eq_lifecycle_enters_and_leaves_safe_mode() {
    let mut life = EqLife::new(false);
    assert_eq!(life.on_init(), vec![EqStep::StartChain]);
    assert_eq!(life.on_started(true), vec![EqStep::SpawnWorkers]);
    assert_eq!(life.on_init(), vec![]);
    assert_eq!(life.on_mutation(), vec![EqStep::PublishState]);
    assert_eq!(life.on_persist_tick(), (true, vec![EqStep::Persist]));
    assert_eq!(life.on_persist_tick(), (true, vec![]));
    assert_eq!(life.on_child_exit(false), vec![EqStep::StartChain]);
    life.on_respawned(false);
    assert!(!life.child && !life.safe_mode);
    assert_eq!(
        life.on_child_exit(true),
        vec![
            EqStep::RestoreDirectRouting,
            EqStep::KillChild,
            EqStep::SetMarker(true),
            EqStep::PublishSafeMode(true)
        ]
    );
    assert!(life.safe_mode && !life.running);
    assert_eq!(life.on_init(), vec![EqStep::PublishSafeMode(true)]);
    assert_eq!(life.on_persist_tick(), (false, vec![]));
    assert_eq!(
        life.on_marker_cleared(),
        vec![EqStep::PublishSafeMode(false), EqStep::StartChain]
    );
    assert_eq!(
        life.on_started(false),
        vec![
            EqStep::RestoreDirectRouting,
            EqStep::KillChild,
            EqStep::SetMarker(true),
            EqStep::PublishSafeMode(true)
        ]
    );
    assert_eq!(
        life.on_shutdown(),
        vec![EqStep::RestoreDirectRouting, EqStep::KillChild, EqStep::Persist]
    );
}

#[test]
fn the_dispatcher_publishes_list_and_graph_changes() {
    assert_eq!(then_event(Then::PublishStreams), Some("stream.list_changed"));
    assert_eq!(then_event(Then::PublishSinks), Some("sink.list_changed"));
    assert_eq!(then_event(Then::GraphChanged), Some("graph.changed"));
    assert_eq!(then_event(Then::EqState), None);
}

#[test]
fn elapsed_nanoseconds_saturate_at_64_bits() {
    assert_eq!(penguinwave::control::process::saturate_nanos(5), 5);
    assert_eq!(penguinwave::control::process::saturate_nanos(u128::MAX), u64::MAX);
    assert_eq!(penguinwave::control::process::saturate_nanos(u64::MAX as u128 + 1), u64::MAX);
}
