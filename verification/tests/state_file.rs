use tennessee_eastman::state_file::{
    key_field, parse_line, render_snapshot, snapshot_layout, state_values, trim, LineKind, SnapshotLine,
    SNAPSHOT_STATES,
};

fn sample_values() -> Vec<String> {
    (0..SNAPSHOT_STATES).map(|i| format!("{}", i as f64 * 1.5 - 7.25)).collect()
}

#[test]
fn layout_names_every_state_once_in_order() {
    let layout = snapshot_layout();
    let indices: Vec<usize> = layout
        .iter()
        .filter_map(|l| match l {
            SnapshotLine::Value { index, .. } => Some(*index),
            _ => None,
        })
        .collect();
    assert_eq!(indices, (0..50).collect::<Vec<usize>>());
}

#[test]
fn rendered_snapshot_text() {
    let lines = render_snapshot("1.2346", &sample_values());
    assert_eq!(lines[0], "[meta]");
    assert_eq!(lines[1], "mode = 1");
    assert_eq!(lines[2], "description = \"TEP snapshot at t = 1.2346 h\"");
    assert_eq!(lines[3], "source = \"auto-snapshot from simulation\"");
    assert_eq!(lines[4], "");
    assert_eq!(lines[5], "[state.reactor_vapor]");
    assert_eq!(lines[6], "A = -7.25");
    assert_eq!(lines[13], "H = 3.25");
    assert_eq!(lines[14], "");
    assert_eq!(lines[15], "[state.reactor]");
    assert_eq!(lines[16], "energy = 4.75");
    let cooling = lines.iter().position(|l| l == "[state.cooling]").unwrap();
    assert_eq!(lines[cooling + 1], "reactor_water_temp   = 46.75");
    assert_eq!(lines[cooling + 2], "separator_water_temp = 48.25");
    let valves = lines.iter().position(|l| l == "[state.valves]").unwrap();
    assert_eq!(lines[valves + 1], format!("{:<25} = {}", "d_feed", 49.75));
    assert_eq!(lines[valves + 12], format!("{:<25} = {}", "agitator_speed", 66.25));
    assert_eq!(lines.len(), valves + 13);
}

#[test]
fn snapshot_reads_back_as_written() {
    let values = sample_values();
    let lines = render_snapshot("0.5000", &values);
    assert_eq!(state_values(&lines), values);
}

#[test]
fn parse_lines() {
    let p = parse_line("  [state.valves]  ");
    assert_eq!(p.kind, LineKind::Section);
    assert_eq!(p.name, "state.valves");
    let p = parse_line("purge_valve               = 40.06");
    assert_eq!(p.kind, LineKind::Entry);
    assert_eq!(p.name, "purge_valve");
    assert_eq!(p.value, "40.06");
    let p = parse_line("a = b = c\r");
    assert_eq!(p.kind, LineKind::Entry);
    assert_eq!(p.name, "a");
    assert_eq!(p.value, "b = c");
    assert_eq!(parse_line("").kind, LineKind::Other);
    assert_eq!(parse_line("   ").kind, LineKind::Other);
    assert_eq!(parse_line("just words").kind, LineKind::Other);
    assert_eq!(parse_line("[").kind, LineKind::Other);
}

#[test]
fn state_values_skip_other_sections() {
    let lines: Vec<String> = [
        "x = 0",
        "[meta]",
        "mode = 1",
        "[state.reactor]",
        "energy = 12.5",
        "",
        "[other]",
        "energy = 99",
        "[state.cooling]",
        "a = 1",
        "b=2",
    ]
    .iter()
    .map(|s| s.to_string())
    .collect();
    assert_eq!(state_values(&lines), vec!["12.5", "1", "2"]);
}

#[test]
fn trimming_and_padding() {
    assert_eq!(trim(" \t a b \r "), "a b");
    assert_eq!(trim("   "), "");
    assert_eq!(key_field("d_feed", 10), "d_feed    ");
    assert_eq!(key_field("d_feed", 3), "d_feed");
    assert_eq!(key_field("", 2), "  ");
}

#[test]
fn longer_state_writes_and_reads_back_its_first_fifty_values() {
    let mut values = sample_values();
    values.push(String::from("123.5"));
    values.push(String::from("-1"));
    let lines = render_snapshot("2.0000", &values);
    assert_eq!(state_values(&lines), values[..SNAPSHOT_STATES].to_vec());
}
