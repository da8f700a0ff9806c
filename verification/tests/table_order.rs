use aether::model::ProcessState;
use aether::tui::network::{connection_row_order, ConnectionInfo, Protocol};
use aether::tui::ordering::{stable_order, stable_text_order, text_before};
use aether::tui::overview::{process_order, ProcessRow, SortColumn};

#[test]
fn integer_order_is_stable_both_ways() {
    let keys = [5u64, 1, 5, 3, 1];
    assert_eq!(stable_order(&keys, true), vec![1, 4, 3, 0, 2]);
    assert_eq!(stable_order(&keys, false), vec![0, 2, 3, 1, 4]);
    assert!(stable_order(&[], true).is_empty());
}

#[test]
fn text_order_matches_str_comparison() {
    let words = ["b", "ab", "", "a", "ab", "B"];
    for x in words {
        for y in words {
            assert_eq!(text_before(x, y), x < y, "{x:?} {y:?}");
        }
    }
    let keys: Vec<String> = words.iter().map(|w| w.to_string()).collect();
    assert_eq!(stable_text_order(&keys, true), vec![2, 5, 3, 1, 4, 0]);
    assert_eq!(stable_text_order(&keys, false), vec![0, 1, 4, 3, 5, 2]);
}

fn row(pid: u32, name: &str, state: ProcessState) -> ProcessRow {
    ProcessRow {
        pid,
        name: name.to_string(),
        cpu_text: String::new(),
        mem_bytes: 0,
        state,
        hp_text: String::new(),
    }
}

#[test]
fn process_table_order_by_column() {
    let rows = vec![
        row(30, "Zsh", ProcessState::Sleeping),
        row(10, "bash", ProcessState::Running),
        row(20, "apache", ProcessState::Zombie),
    ];
    let none = [0u64; 3];
    assert_eq!(process_order(&rows, SortColumn::Pid, true, &none), vec![1, 2, 0]);
    assert_eq!(process_order(&rows, SortColumn::Name, true, &none), vec![2, 1, 0]);
    assert_eq!(process_order(&rows, SortColumn::State, false, &none), vec![2, 0, 1]);
    assert_eq!(process_order(&rows, SortColumn::Cpu, false, &[15, 90, 15]), vec![1, 0, 2]);
}

fn conn(name: &str, bps_key: u64) -> (ConnectionInfo, u64) {
    (
        ConnectionInfo {
            source_pid: 1,
            source_name: Some(name.to_string()),
            dest: "10.0.0.1:1".to_string(),
            protocol: Protocol::TCP,
            state: "Established".to_string(),
            bytes_per_sec: bps_key,
        },
        bps_key,
    )
}

#[test]
fn connection_rows_busiest_first_after_filter() {
    let pairs = vec![conn("nginx", 1000), conn("postgres", 5000), conn("nginx-2", 5000), conn("redis", 9)];
    let conns: Vec<ConnectionInfo> = pairs.iter().map(|(c, _)| ConnectionInfo {
        source_pid: c.source_pid,
        source_name: c.source_name.clone(),
        dest: c.dest.clone(),
        protocol: c.protocol,
        state: c.state.clone(),
        bytes_per_sec: c.bytes_per_sec,
    }).collect();
    let keys: Vec<u64> = pairs.iter().map(|(_, k)| *k).collect();
    assert_eq!(connection_row_order(&conns, "", &keys), vec![1, 2, 0, 3]);
    assert_eq!(connection_row_order(&conns, "NGINX", &keys), vec![2, 0]);
}
