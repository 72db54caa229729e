use cove::export::{export_targets, format_out, Args, Format, Target};

fn args(rooms: &[&str], all: bool, format: Format, out: &str) -> Args {
    Args {
        rooms: rooms.iter().map(|r| r.to_string()).collect(),
        all,
        domain: String::from("euphoria.leet.nu"),
        format,
        out: out.to_string(),
    }
}

fn files(targets: &[(String, Target)]) -> Vec<(String, Option<String>)> {
    targets
        .iter()
        .map(|(room, t)| {
            let file = match t {
                Target::Stdout => None,
                Target::File(f) => Some(f.clone()),
            };
            (room.clone(), file)
        })
        .collect()
}

#[test]
fn placeholders_in_output_location() {
    assert_eq!(format_out("%r.%e", "test", Format::Text), "test.txt");
    assert_eq!(format_out("%%r-%x-%", "room", Format::JsonLines), "%r-%x-");
    assert_eq!(format_out("logs/%r/%r.%e", "a", Format::Json), "logs/a/a.json");
    assert_eq!(Format::JsonLines.name(), "json lines");
}

#[test]
fn given_rooms_lose_repeats_and_directories_get_file_names() {
    let a = args(&["b", "a", "a", "b"], false, Format::Text, "logs/");
    let t = export_targets(&a, vec![String::from("ignored")]);
    assert_eq!(
        files(&t),
        vec![
            (String::from("b"), Some(String::from("logs/b.txt"))),
            (String::from("a"), Some(String::from("logs/a.txt"))),
            (String::from("b"), Some(String::from("logs/b.txt"))),
        ]
    );
}

#[test]
fn all_rooms_are_sorted_and_can_go_to_stdout() {
    let a = args(&[], true, Format::Json, "-");
    let t = export_targets(&a, vec![String::from("zeta"), String::from("alpha"), String::from("Beta")]);
    assert_eq!(
        files(&t),
        vec![(String::from("Beta"), None), (String::from("alpha"), None), (String::from("zeta"), None)]
    );
    let a = args(&[], false, Format::Json, "-");
    assert!(export_targets(&a, vec![String::from("x")]).is_empty());
}
