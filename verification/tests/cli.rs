use penguinwave::cli::client::{check_hello, reply_step, ReplyStep, check_line, daemon_compatible, not_running, socket_path};
use penguinwave::cli::render::render;
use penguinwave::proto::Response;
use penguinwave::cli::commands::{parse_device_id, parse_port, stream_ref, Chain, Filter};
use penguinwave::cli::render::{join, lines, mark, port, shell_join, truncate};
use penguinwave::proto::{DeviceId, EqChainId, ErrorKind, FilterType, PortRef, PwError};

fn strings(v: &[&str]) -> Vec<String> {
    v.iter().map(|s| s.to_string()).collect()
}

#[test]
fn a_port_is_node_colon_port() {
    let p = parse_port("alsa_output.x:playback_FL").unwrap();
    assert_eq!(p.node_name, "alsa_output.x");
    assert_eq!(p.port_name, "playback_FL");
    assert_eq!(p.id, None);

    // Only the first colon splits.
    let q = parse_port("a:b:c").unwrap();
    assert_eq!((q.node_name.as_str(), q.port_name.as_str()), ("a", "b:c"));

    let e = parse_port("nocolon").unwrap_err();
    assert_eq!(e.kind, ErrorKind::BadRequest);
    assert_eq!(e.msg, "expected node:port, got \"nocolon\"");
}

#[test]
fn device_ids_parse_as_hex_pairs() {
    assert_eq!(
        parse_device_id("1038:2202").unwrap(),
        Some(DeviceId::new(0x1038, 0x2202))
    );
    assert_eq!(
        parse_device_id("0x1038:0xABcd").unwrap(),
        Some(DeviceId::new(0x1038, 0xabcd))
    );
    assert_eq!(parse_device_id("+1:0x0x2").unwrap(), Some(DeviceId::new(1, 2)));
    assert_eq!(parse_device_id("none").unwrap(), None);
    assert_eq!(parse_device_id("NoNe").unwrap(), None);
}

#[test]
fn bad_device_ids_say_what_was_expected() {
    for bad in ["1038", "1038:", ":2202", "10000:1", "zz:1", "1:2:3", "-1:2", "+:1"] {
        let e = parse_device_id(bad).unwrap_err();
        assert_eq!(e.kind, ErrorKind::BadRequest, "{bad}");
        assert_eq!(
            e.msg,
            format!("expected vendor:product in hex, got {bad:?}")
        );
    }
}

#[test]
fn a_stream_is_addressed_by_index_alone() {
    let s = stream_ref(42);
    assert_eq!(s.index, 42);
    assert!(s.app_name.is_empty());
    assert_eq!(s.pid, None);
}

#[test]
fn command_enums_map_to_wire_enums() {
    assert_eq!(EqChainId::from(Chain::Game), EqChainId::Game);
    assert_eq!(EqChainId::from(Chain::Chat), EqChainId::Chat);
    assert_eq!(FilterType::from(Filter::Notch), FilterType::Notch);
    assert_eq!(FilterType::from(Filter::LowShelf), FilterType::LowShelf);
}

#[test]
fn lists_are_one_per_line_or_none() {
    assert_eq!(lines(&strings(&[])), "(none)");
    assert_eq!(lines(&strings(&["a"])), "a");
    assert_eq!(lines(&strings(&["a", "b", "c"])), "a\nb\nc");
    assert_eq!(join(&strings(&["x", "", "y"]), ", "), "x, , y");
}

#[test]
fn dependencies_are_marked() {
    assert_eq!(mark(true), "found");
    assert_eq!(mark(false), "MISSING");
}

#[test]
fn long_cells_are_truncated_with_an_ellipsis() {
    assert_eq!(truncate("short", 10), "short");
    assert_eq!(truncate("exactly", 7), "exactly");
    assert_eq!(truncate("much too long", 6), "much …");
    assert_eq!(truncate("héllo wörld", 4), "hél…");
    assert_eq!(truncate("abc", 0), "…");
}

#[test]
fn ports_render_with_their_id_when_known() {
    let mut p = PortRef {
        node_name: "n".to_string(),
        port_name: "p".to_string(),
        id: None,
    };
    assert_eq!(port(&p), "n:p");
    p.id = Some(17);
    assert_eq!(port(&p), "n:p (#17)");
}

#[test]
fn commands_are_quoted_for_a_shell() {
    assert_eq!(
        shell_join(&strings(&["sudo", "cp", "/tmp/70-x.rules", "/etc/udev/rules.d/"])),
        "sudo cp /tmp/70-x.rules /etc/udev/rules.d/"
    );
    assert_eq!(
        shell_join(&strings(&["echo", "it's here", "a b"])),
        "echo 'it'\\''s here' 'a b'"
    );
    assert_eq!(shell_join(&strings(&[])), "");
    assert_eq!(shell_join(&strings(&["", "x"])), " x");
}

#[test]
fn a_parsed_port_renders_back_as_typed() {
    for spec in ["alsa_output.x:playback_FL", "a:b:c", ":x", "x:"] {
        assert_eq!(port(&parse_port(spec).unwrap()), spec);
    }
}

#[test]
fn a_shown_device_id_is_accepted_by_select() {
    for id in [DeviceId::new(0x1038, 0x2202), DeviceId::new(0, 0xffff)] {
        let shown = render(&Response::<String>::SelectedDevice(Some(id)));
        assert_eq!(parse_device_id(&shown).unwrap(), Some(id));
    }
}

#[test]
fn truncated_cells_fit_their_width() {
    for width in 0..8usize {
        let t = truncate("a long cell", width);
        assert!(t.chars().count() <= width.max(1));
    }
}

#[test]
fn the_client_finds_the_daemon_under_xdg_runtime_dir() {
    assert_eq!(
        socket_path(Some("/run/user/1000")).unwrap(),
        "/run/user/1000/penguinwave/daemon.sock"
    );
    let e = socket_path(None).unwrap_err();
    assert_eq!(e.kind, ErrorKind::Internal);
    assert!(e.msg.contains("XDG_RUNTIME_DIR"));
}

#[test]
fn a_missing_daemon_points_at_the_user_unit() {
    let e = not_running("/run/user/1000/penguinwave/daemon.sock");
    assert_eq!(e.kind, ErrorKind::PipeWireUnavailable);
    assert_eq!(
        e.msg,
        "no daemon listening on /run/user/1000/penguinwave/daemon.sock\n\nstart it with:\n    systemctl --user enable --now penguinwave.service"
    );
}

#[test]
fn lines_from_the_daemon_are_checked() {
    assert_eq!(check_line(0).unwrap_err().kind, ErrorKind::PipeWireUnavailable);
    assert!(check_line(1).is_ok());
    assert!(check_line(1_048_576).is_ok());
    assert_eq!(check_line(1_048_577).unwrap_err().kind, ErrorKind::BadRequest);
    assert!(daemon_compatible((1, 1)));
    assert!(daemon_compatible((0, 1)));
    assert!(!daemon_compatible((2, 3)));
}

#[test]
fn an_incompatible_daemon_is_refused_with_its_range() {
    assert_eq!(check_hello((1, 1)), Ok(()));
    assert_eq!(check_hello((0, 1)), Ok(()));
    let e = check_hello((2, 3)).unwrap_err();
    assert_eq!(e.kind, penguinwave::proto::ErrorKind::VersionMismatch);
    assert_eq!(e.supported, Some((2, 3)));
    assert_eq!(e.msg, "unsupported protocol version; supported: 2..3");
    assert!(!e.retryable);
}

#[test]
fn only_the_awaited_reply_ends_the_wait() {
    assert_eq!(reply_step::<u8>(4, None), ReplyStep::Skip);
    assert_eq!(reply_step::<u8>(4, Some((3, Ok(1)))), ReplyStep::Skip);
    assert_eq!(reply_step::<u8>(4, Some((4, Ok(1)))), ReplyStep::Reply(Ok(1)));
    let e = PwError::new(ErrorKind::NotFound, "gone".to_string());
    assert_eq!(reply_step::<u8>(4, Some((4, Err(e.clone())))), ReplyStep::Reply(Err(e)));
}
