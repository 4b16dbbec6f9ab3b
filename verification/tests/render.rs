use penguinwave::cli::commands::{
    ChatmixCmd, Chain, Command, DeviceCmd, EqCmd, Filter, GraphCmd, SinkCmd, StreamCmd, SystemCmd,
};
use penguinwave::cli::render::render;
use penguinwave::cli::request::{
    delete_request, is_session_method, request, shown, teardown_check, teardown_targets,
    watch_events,
};
use penguinwave::proto::{
    Capability, ChatMix, DeviceDescriptor, DeviceId, DevicePresence, EqBand, EqChain, EqChainId,
    EqPresetMeta, EqState, ErrorKind, FilterType, HelloReply, Link, OutputDevice, PortDirection,
    PortInfo, PortRef, Request, Response, RouteInfo, SinkInfo, Snapshot, StreamInfo, StreamRef,
    SystemDeps, UdevStatus, UserDevice,
};

type Text = String;

fn sink(name: &str, volume: u8, is_muted: bool, managed: bool) -> SinkInfo {
    SinkInfo {
        name: name.to_string(),
        volume,
        is_muted,
        managed,
    }
}

fn stream(index: u32, name: &str, sink: &str, volume: u8, is_muted: bool) -> StreamInfo {
    StreamInfo {
        stream: StreamRef {
            index,
            app_name: String::new(),
            pid: None,
        },
        name: name.to_string(),
        sink: sink.to_string(),
        volume,
        is_muted,
    }
}

fn nova(presence: DevicePresence) -> DeviceDescriptor {
    DeviceDescriptor {
        id: DeviceId::new(0x1038, 0x2202),
        name: "SteelSeries Arctis Nova 7".to_string(),
        presence,
        capabilities: vec![Capability::ChatMixStatus],
    }
}

fn band(freq: &str, gain: &str, q: &str, filter_type: FilterType, enabled: bool) -> EqBand<Text> {
    EqBand {
        freq: freq.to_string(),
        gain_db: gain.to_string(),
        q: q.to_string(),
        filter_type,
        enabled,
    }
}

#[test]
fn simple_answers() {
    assert_eq!(render(&Response::<Text>::Empty), "ok");
    assert_eq!(
        render(&Response::<Text>::Hello(HelloReply {
            daemon: "0.3.0".to_string(),
            proto: (1, 1),
            caps: vec!["events".to_string()],
        })),
        "daemon 0.3.0 proto 1..=1"
    );
    assert_eq!(
        render(&Response::<Text>::SinkName("game_sink".to_string())),
        "game_sink"
    );
    assert_eq!(render(&Response::<Text>::Route(None)), "no route");
    assert_eq!(
        render(&Response::<Text>::Route(Some(RouteInfo {
            sink: "game_sink".to_string(),
            device: "alsa_output.x".to_string(),
            description: "Headset".to_string(),
        }))),
        "game_sink -> alsa_output.x (Headset)"
    );
    assert_eq!(render(&Response::<Text>::SelectedDevice(None)), "none");
    assert_eq!(
        render(&Response::<Text>::SelectedDevice(Some(DeviceId::new(0x1038, 0x2202)))),
        "1038:2202"
    );
    assert_eq!(
        render(&Response::<Text>::ChatMix(ChatMix {
            value: 70,
            manual: true
        })),
        "70 (manual)"
    );
    assert_eq!(render(&Response::<Text>::Icon(None)), "no icon");
    assert_eq!(
        render(&Response::<Text>::Icon(Some("AAAA".to_string()))),
        "data:image/png;base64,AAAA"
    );
}

#[test]
fn empty_lists_read_none() {
    assert_eq!(render(&Response::<Text>::Sinks(vec![])), "(none)");
    assert_eq!(render(&Response::<Text>::Streams(vec![])), "(none)");
    assert_eq!(render(&Response::<Text>::Links(vec![])), "(none)");
}

#[test]
fn lists_are_laid_out_in_columns() {
    assert_eq!(
        render(&Response::<Text>::Sinks(vec![
            sink("game_sink", 80, false, true),
            sink("alsa_output.x", 5, true, false),
        ])),
        format!(
            "{:<28} {:>3}%{}\n{:<28} {:>3}%{}",
            "game_sink", 80, " [managed]", "alsa_output.x", 5, " muted"
        )
    );
    assert_eq!(
        render(&Response::<Text>::Streams(vec![stream(
            12,
            "a very long application name that overflows",
            "game_sink",
            100,
            true
        )])),
        format!(
            "{:<5} {:<28} -> {:<20} {:>3}%{}",
            12, "a very long application nam…", "game_sink", 100, " muted"
        )
    );
    assert_eq!(
        render(&Response::<Text>::OutputDevices(vec![OutputDevice {
            name: "alsa_output.x".to_string(),
            description: "Speakers".to_string(),
        }])),
        format!("{:<40} {}", "alsa_output.x", "Speakers")
    );
    assert_eq!(
        render(&Response::<Text>::Ports(vec![PortInfo {
            id: 41,
            node_name: "game_sink".to_string(),
            port_name: "monitor_FL".to_string(),
            direction: PortDirection::Output,
        }])),
        format!("{:<6} {:<32} {:<12} {}", 41, "game_sink", "monitor_FL", "Output")
    );
    assert_eq!(
        render(&Response::<Text>::Links(vec![Link {
            source: PortRef {
                node_name: "a".to_string(),
                port_name: "out".to_string(),
                id: Some(3),
            },
            target: PortRef {
                node_name: "b".to_string(),
                port_name: "in".to_string(),
                id: None,
            },
        }])),
        "a:out (#3) -> b:in"
    );
    assert_eq!(
        render(&Response::<Text>::Devices(vec![nova(DevicePresence::Faulted)])),
        format!("1038:2202 {:<28} Faulted", "SteelSeries Arctis Nova 7")
    );
    assert_eq!(
        render(&Response::<Text>::UserDevices(vec![UserDevice {
            name: "Mine".to_string(),
            vendor_id: Some("1038".to_string()),
            product_id: None,
            pipewire_sink: None,
        }])),
        format!("{:<24} 1038:-", "Mine")
    );
    assert_eq!(
        render(&Response::<Text>::EqPresets(vec![
            EqPresetMeta {
                name: "Flat".to_string(),
                builtin: true
            },
            EqPresetMeta {
                name: "Mine".to_string(),
                builtin: false
            },
        ])),
        format!("{:<20} [builtin]\n{:<20}", "Flat", "Mine")
    );
}

#[test]
fn a_snapshot_lists_every_section() {
    let s = Snapshot::<Text> {
        default_sink: "game_sink".to_string(),
        chatmix: ChatMix {
            value: 50,
            manual: false,
        },
        eq: EqState {
            safe_mode: true,
            chains: vec![],
        },
        sinks: vec![sink("game_sink", 100, false, true)],
        streams: vec![stream(7, "Firefox", "game_sink", 64, false)],
        devices: vec![nova(DevicePresence::Connected)],
        selected_device: Some(DeviceId::new(0x1038, 0x2202)),
        user_devices: vec![],
    };
    let expected = [
        "default sink: game_sink".to_string(),
        "chatmix: 50 (wheel)".to_string(),
        "eq: safe mode".to_string(),
        String::new(),
        "sinks (1)".to_string(),
        format!("  {:<28} {:>3}%{}", "game_sink", 100, " [managed]"),
        String::new(),
        "streams (1)".to_string(),
        format!("  {:<5} {:<24} -> {:<20} {:>3}%", 7, "Firefox", "game_sink", 64),
        String::new(),
        "devices (1)".to_string(),
        format!(
            "  1038:2202 {:<28} Connected [selected]",
            "SteelSeries Arctis Nova 7"
        ),
    ]
    .join("\n");
    assert_eq!(render(&Response::Snapshot(s)), expected);
}

#[test]
fn eq_state_lists_chat_before_game() {
    let st = EqState::<Text> {
        safe_mode: false,
        chains: vec![
            (
                EqChainId::Game,
                EqChain {
                    enabled: true,
                    preamp_db: "-4.0".to_string(),
                    bands: vec![band("   100.0", "  +6.0", "0.71", FilterType::LowShelf, true)],
                },
            ),
            (
                EqChainId::Chat,
                EqChain {
                    enabled: false,
                    preamp_db: "+0.0".to_string(),
                    bands: vec![],
                },
            ),
        ],
    };
    assert_eq!(
        render(&Response::EqState(st)),
        "Chat: off preamp +0.0 dB, 0 bands\nGame: on  preamp -4.0 dB, 1 bands\n  [ 0]    100.0 Hz   +6.0 dB  Q 0.71  LowShelf"
    );
    let safe = EqState::<Text> {
        safe_mode: true,
        chains: vec![(
            EqChainId::Chat,
            EqChain {
                enabled: true,
                preamp_db: "+1.5".to_string(),
                bands: vec![band("  1000.0", "  -3.0", "1.10", FilterType::Notch, false)],
            },
        )],
    };
    assert_eq!(
        render(&Response::EqState(safe)),
        "safe mode: the filter chain is bypassed\nChat: on  preamp +1.5 dB, 1 bands\n  [ 0]   1000.0 Hz   -3.0 dB  Q 1.10  Notch (off)"
    );
}

#[test]
fn system_checks() {
    assert_eq!(
        render(&Response::<Text>::SystemDeps(SystemDeps {
            pipewire: true,
            pactl: true,
            pw_link: false,
            libhidapi: true,
        })),
        "pipewire   found\npactl      found\npw-link    MISSING\nlibhidapi  found"
    );
    assert_eq!(
        render(&Response::<Text>::UdevStatus(UdevStatus {
            installed: true,
            install_command: None
        })),
        "udev rule installed"
    );
    assert_eq!(
        render(&Response::<Text>::UdevStatus(UdevStatus {
            installed: false,
            install_command: Some(vec![
                "pkexec".to_string(),
                "cp".to_string(),
                "/tmp/my rules".to_string(),
            ]),
        })),
        "udev rule missing or outdated; run:\n\n    pkexec cp '/tmp/my rules'"
    );
    assert_eq!(
        render(&Response::<Text>::UdevStatus(UdevStatus {
            installed: false,
            install_command: None
        })),
        "udev rule missing or outdated; run:\n"
    );
}

#[test]
fn commands_become_requests() {
    assert_eq!(
        request::<f32>(&Command::Status).unwrap(),
        Request::SessionSnapshot
    );
    assert_eq!(
        request::<f32>(&Command::Sink(SinkCmd::List)).unwrap(),
        Request::SinkListCustom
    );
    assert_eq!(
        request::<f32>(&Command::Sink(SinkCmd::Create {
            name: "music".to_string(),
            display_name: None
        }))
        .unwrap(),
        Request::SinkCreate {
            config: penguinwave::proto::SinkConfig {
                name: "music".to_string(),
                display_name: "music".to_string()
            }
        }
    );
    match request::<f32>(&Command::Stream(StreamCmd::Move {
        index: 4,
        sink: "chat_sink".to_string(),
    }))
    .unwrap()
    {
        Request::StreamMove { stream, sink } => {
            assert_eq!(stream.index, 4);
            assert!(stream.app_name.is_empty());
            assert_eq!(sink, "chat_sink");
        }
        other => panic!("unexpected {other:?}"),
    }
    assert_eq!(
        request::<f32>(&Command::Chatmix(ChatmixCmd::Get)).unwrap(),
        Request::SessionSnapshot
    );
    assert_eq!(
        request::<f32>(&Command::Chatmix(ChatmixCmd::SetValue { value: 30 })).unwrap(),
        Request::ChatmixSetManual { value: Some(30) }
    );
    assert_eq!(
        request::<f32>(&Command::Chatmix(ChatmixCmd::Auto)).unwrap(),
        Request::ChatmixSetManual { value: None }
    );
    assert_eq!(
        request::<f32>(&Command::System(SystemCmd::InstallUdev)).unwrap(),
        Request::SystemInstallUdev
    );
    assert_eq!(
        request(&Command::Eq(EqCmd::SetBand {
            chain: Chain::Chat,
            index: 2,
            freq: 1000.0f32,
            gain: -3.0,
            q: 1.1,
            filter: Filter::HighShelf,
        }))
        .unwrap(),
        Request::EqSetBand {
            chain: EqChainId::Chat,
            index: 2,
            band: EqBand {
                freq: 1000.0,
                gain_db: -3.0,
                q: 1.1,
                filter_type: FilterType::HighShelf,
                enabled: true
            }
        }
    );
    assert_eq!(
        request(&Command::Eq(EqCmd::Preamp {
            chain: Chain::Game,
            gain_db: -5.0f32
        }))
        .unwrap(),
        Request::EqSetPreamp {
            chain: EqChainId::Game,
            preamp_db: -5.0
        }
    );
    assert_eq!(
        request::<f32>(&Command::Eq(EqCmd::Disable { chain: Chain::Game })).unwrap(),
        Request::EqSetChainEnabled {
            chain: EqChainId::Game,
            enabled: false
        }
    );
}

#[test]
fn bad_arguments_fail_before_anything_is_sent() {
    let e = request::<f32>(&Command::Graph(GraphCmd::Link {
        source: "a:out".to_string(),
        target: "nocolon".to_string(),
    }))
    .unwrap_err();
    assert_eq!(e.kind, ErrorKind::BadRequest);
    assert_eq!(e.msg, "expected node:port, got \"nocolon\"");

    let e = request::<f32>(&Command::Device(DeviceCmd::Select {
        id: "12:zz".to_string(),
    }))
    .unwrap_err();
    assert_eq!(e.msg, "expected vendor:product in hex, got \"12:zz\"");

    assert_eq!(
        request::<f32>(&Command::Device(DeviceCmd::Select {
            id: "none".to_string()
        }))
        .unwrap(),
        Request::DeviceSetSelected { device: None }
    );
    match request::<f32>(&Command::Graph(GraphCmd::Unlink {
        source: "a:out".to_string(),
        target: "b:in".to_string(),
    }))
    .unwrap()
    {
        Request::GraphUnlink { source, target } => {
            assert_eq!(source.node_name, "a");
            assert_eq!(target.port_name, "in");
        }
        other => panic!("unexpected {other:?}"),
    }
}

#[test]
fn the_client_handles_its_own_subcommands() {
    let snapshot = Response::<Text>::Snapshot(Snapshot {
        default_sink: String::new(),
        chatmix: ChatMix {
            value: 33,
            manual: true,
        },
        eq: EqState {
            safe_mode: false,
            chains: vec![],
        },
        sinks: vec![],
        streams: vec![],
        devices: vec![],
        selected_device: None,
        user_devices: vec![],
    });
    assert_eq!(
        shown(&Command::<Text>::Chatmix(ChatmixCmd::Get), snapshot),
        Response::ChatMix(ChatMix {
            value: 33,
            manual: true
        })
    );
    assert_eq!(
        shown(&Command::<Text>::Status, Response::Empty),
        Response::Empty
    );
    assert_eq!(watch_events(None), vec!["*".to_string()]);
    assert_eq!(
        watch_events(Some(vec!["eq.safe_mode".to_string()])),
        vec!["eq.safe_mode".to_string()]
    );
    let e = teardown_check(false).unwrap_err();
    assert_eq!(e.kind, ErrorKind::BadRequest);
    assert!(teardown_check(true).is_ok());
    let sinks = vec![sink("game_sink", 1, false, true)];
    assert_eq!(
        teardown_targets(Response::<Text>::Sinks(sinks.clone())).unwrap(),
        sinks
    );
    assert_eq!(
        teardown_targets(Response::<Text>::Empty).unwrap_err().kind,
        ErrorKind::Internal
    );
    assert_eq!(
        delete_request::<Text>(&sinks[0]),
        Request::SinkDelete {
            name: "game_sink".to_string()
        }
    );
    assert!(is_session_method(&Request::<Text>::SessionHello {
        client: "t".to_string(),
        proto: 1
    }));
    assert!(!is_session_method(&Request::<Text>::SinkDefault));
}

#[test]
fn session_methods_are_not_handled_here() {
    assert!(is_session_method(&Request::<Text>::SessionHello {
        client: "test".to_string(),
        proto: 1
    }));
    assert!(is_session_method(&Request::<Text>::SessionSubscribe { events: vec![] }));
    assert!(!is_session_method(&Request::<Text>::SessionSnapshot));
}

#[test]
fn each_eq_header_is_followed_by_its_band_rows() {
    let chain = |n: usize| EqChain {
        enabled: true,
        preamp_db: "+0.0".to_string(),
        bands: (0..n)
            .map(|_| band("   100.0", "  +1.0", "0.71", FilterType::Peaking, true))
            .collect(),
    };
    let st = EqState::<Text> {
        safe_mode: true,
        chains: vec![(EqChainId::Game, chain(2)), (EqChainId::Chat, chain(1)), (EqChainId::Chat, chain(0))],
    };
    let out = render(&Response::EqState(st));
    let lines: Vec<&str> = out.split('\n').collect();
    assert_eq!(lines[0], "safe mode: the filter chain is bypassed");
    let kinds: Vec<char> = lines[1..]
        .iter()
        .map(|l| if l.starts_with("  [") { 'b' } else if l.starts_with("Chat: ") { 'C' } else { 'G' })
        .collect();
    assert_eq!(kinds, vec!['C', 'b', 'C', 'G', 'b', 'b']);
}
