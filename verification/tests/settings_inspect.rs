use cove::inspect::{session_text, InspectTone, NickEvent, SessionInfo, SessionView};
use cove::settings::{update_config_with_args, Args, Config};

fn args(data_dir: Option<&str>, ephemeral: bool) -> Args {
    Args {
        verbose: false,
        config: None,
        data_dir: data_dir.map(String::from),
        ephemeral,
        offline: false,
        measure_widths: true,
    }
}

#[test]
fn command_line_overrides_config() {
    let mut config = Config { data_dir: Some(String::from("cove")), ephemeral: false, measure_widths: false, offline: true };
    update_config_with_args(&mut config, &args(Some("./here"), true), Some(String::from("/home/u/cove")));
    assert_eq!(config.data_dir.as_deref(), Some("./here"));
    assert!(config.ephemeral && config.measure_widths && config.offline);

    let mut config = Config { data_dir: Some(String::from("cove")), ephemeral: false, measure_widths: false, offline: false };
    update_config_with_args(&mut config, &args(None, false), Some(String::from("/home/u/cove")));
    assert_eq!(config.data_dir.as_deref(), Some("/home/u/cove"));
    assert!(!config.ephemeral && config.measure_widths && !config.offline);

    let mut config = Config { data_dir: None, ephemeral: true, measure_widths: false, offline: false };
    update_config_with_args(&mut config, &args(None, false), None);
    assert_eq!(config.data_dir, None);
    assert!(config.ephemeral);
}

fn texts(pieces: &[(String, InspectTone)]) -> String {
    pieces.iter().map(|(t, _)| t.as_str()).collect()
}

#[test]
fn inspecting_sessions() {
    let full = SessionInfo::Full(SessionView {
        id: String::from("agent:abc"),
        name: String::from("a \"b\""),
        server_id: String::from("heim"),
        server_era: String::from("era"),
        session_id: String::from("s1"),
        is_staff: false,
        is_manager: true,
        client_address: Some(String::from("1.2.3.4")),
        real_client_address: None,
    });
    let pieces = session_text(&full);
    assert_eq!(pieces[0], (String::from("Full session"), InspectTone::Heading));
    assert_eq!(pieces[2], (String::from("id"), InspectTone::Field));
    assert_eq!(
        texts(&pieces),
        "Full session\nid agent:abc\nname a \"b\"\nname (raw) \"a \\\"b\\\"\"\nserver_id heim\n\
         server_era era\nsession_id s1\nis_staff no\nis_manager yes\nclient_address 1.2.3.4\n\
         real_client_address none\n"
    );
    assert_eq!(pieces[pieces.len() - 2], (String::from("none"), InspectTone::Missing));

    let partial = SessionInfo::Partial(NickEvent {
        id: String::from("bot:x"),
        to: String::from("tab\t"),
        session_id: String::from("s2"),
    });
    assert_eq!(
        texts(&session_text(&partial)),
        "Partial session\nid bot:x\nname tab\t\nname (raw) \"tab\\t\"\nsession_id s2\n"
    );
}
