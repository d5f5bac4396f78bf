use serial_monitor::aggregator::Aggregator;
use serial_monitor::data::{epoch_ms_of, make_column_label, DataContainer, Packet, SerialDirection};
use serial_monitor::export::export_table;
use serial_monitor::parser::parser;

fn packet(t: u128, payload: &str) -> Packet<String> {
    Packet {
        relative_time: t,
        absolute_time: 1_000 + t,
        direction: SerialDirection::Receive,
        payload: payload.to_string(),
    }
}

fn bits(values: &[f32]) -> Vec<u32> {
    values.iter().map(|v| v.to_bits()).collect()
}

fn column_lengths(data: &DataContainer<String>) -> Vec<usize> {
    data.dataset.iter().map(|c| c.len()).collect()
}

#[test]
fn three_packets_reset_append_and_mismatch() {
    let mut data: DataContainer<String> = DataContainer::default();
    let mut counter: i32 = 0;
    assert!(parser(packet(0, "1,2,3"), bits(&[1.0, 2.0, 3.0]), &mut data, &mut counter));
    assert_eq!(data.dataset.len(), 3);
    assert_eq!(column_lengths(&data), vec![0, 0, 0]);
    assert_eq!(data.names, vec!["Column 0", "Column 1", "Column 2"]);
    assert!(parser(packet(10, "4,5,6"), bits(&[4.0, 5.0, 6.0]), &mut data, &mut counter));
    assert_eq!(data.dataset, vec![bits(&[4.0]), bits(&[5.0]), bits(&[6.0])]);
    assert_eq!(data.time, vec![10]);
    assert_eq!(data.absolute_time, vec![1_010]);
    assert!(parser(packet(20, "7,8"), bits(&[7.0, 8.0]), &mut data, &mut counter));
    assert_eq!(counter, 1);
    assert_eq!(column_lengths(&data), vec![1, 1, 1]);
    assert_eq!(data.time.len(), 1);
    assert_eq!(data.raw_traffic.len(), 3);
}

#[test]
fn empty_payload_changes_nothing() {
    let mut data: DataContainer<String> = DataContainer::default();
    let mut counter: i32 = 4;
    assert!(!parser(packet(0, ""), vec![], &mut data, &mut counter));
    assert_eq!(counter, 4);
    assert!(data.raw_traffic.is_empty());
    assert_eq!(data.dataset.len(), 1);
}

#[test]
fn line_without_numbers_keeps_one_column() {
    let mut data: DataContainer<String> = DataContainer::default();
    let mut counter: i32 = 0;
    assert!(parser(packet(0, "abc"), vec![], &mut data, &mut counter));
    assert_eq!(data.dataset.len(), 1);
    assert_eq!(data.names, vec!["Column 0"]);
    assert_eq!(data.raw_traffic.len(), 1);
}

#[test]
fn constant_width_keeps_schema() {
    let mut data: DataContainer<String> = DataContainer::default();
    let mut counter: i32 = 0;
    for k in 0..20u32 {
        let x = k as f32;
        parser(packet(k as u128, "a,b"), bits(&[x, x + 1.0]), &mut data, &mut counter);
        assert_eq!(data.dataset.len(), 2);
        assert_eq!(data.time.len(), data.dataset[0].len());
        assert_eq!(data.time.len(), data.dataset[1].len());
    }
    assert_eq!(data.time.len(), 19);
}

#[test]
fn eleven_mismatches_then_reset() {
    let mut data: DataContainer<String> = DataContainer::default();
    let mut counter: i32 = 0;
    parser(packet(0, "1,2"), bits(&[1.0, 2.0]), &mut data, &mut counter);
    parser(packet(1, "1,2"), bits(&[1.0, 2.0]), &mut data, &mut counter);
    for k in 0..11 {
        parser(packet(2 + k, "1,2,3"), bits(&[1.0, 2.0, 3.0]), &mut data, &mut counter);
        assert_eq!(data.dataset.len(), 2);
    }
    assert_eq!(counter, 11);
    parser(packet(20, "1,2,3"), bits(&[1.0, 2.0, 3.0]), &mut data, &mut counter);
    assert_eq!(counter, 0);
    assert_eq!(column_lengths(&data), vec![0, 0, 0]);
    assert_eq!(data.names, vec!["Column 0", "Column 1", "Column 2"]);
    assert_eq!(data.raw_traffic.len(), 14);
}

#[test]
fn nine_mismatches_then_match_clears_counter() {
    let mut data: DataContainer<String> = DataContainer::default();
    let mut counter: i32 = 0;
    parser(packet(0, "1,2"), bits(&[1.0, 2.0]), &mut data, &mut counter);
    for k in 0..9 {
        parser(packet(1 + k, "1"), bits(&[1.0]), &mut data, &mut counter);
    }
    assert_eq!(counter, 9);
    parser(packet(30, "5,6"), bits(&[5.0, 6.0]), &mut data, &mut counter);
    assert_eq!(counter, 0);
    assert_eq!(data.dataset, vec![bits(&[5.0]), bits(&[6.0])]);
    assert_eq!(data.time, vec![30]);
}

#[test]
fn renamed_labels_survive_reset_of_same_width() {
    let mut agg = Aggregator::new();
    let names = vec!["a".to_string(), "b".to_string()];
    agg.cycle(None, Some(names.clone()), Some((packet(0, "1,2"), bits(&[1.0, 2.0]))));
    assert_eq!(agg.data.names, names);
    agg.cycle(None, None, Some((packet(1, "1,2,3"), bits(&[1.0, 2.0, 3.0]))));
    assert_eq!(agg.failed_format_counter, 1);
}

#[test]
fn clear_twice_equals_clear_once() {
    let mut agg = Aggregator::new();
    agg.cycle(None, None, Some((packet(0, "1,2"), bits(&[1.0, 2.0]))));
    agg.cycle(None, None, Some((packet(1, "1,2"), bits(&[1.0, 2.0]))));
    agg.clear();
    let once_names = agg.data.names.clone();
    agg.clear();
    assert_eq!(agg.data.names, once_names);
    assert_eq!(agg.data.names, vec!["Column 0"]);
    assert_eq!(agg.data.dataset, vec![Vec::<u32>::new()]);
    assert!(agg.data.time.is_empty());
    assert!(agg.data.raw_traffic.is_empty());
    assert_eq!(agg.failed_format_counter, 0);
}

#[test]
fn clear_wins_over_packet_in_same_cycle() {
    let mut agg = Aggregator::new();
    agg.cycle(None, None, Some((packet(0, "1,2"), bits(&[1.0, 2.0]))));
    let publish = agg.cycle(Some(true), None, Some((packet(1, "3,4,5"), bits(&[3.0, 4.0, 5.0]))));
    assert!(publish);
    assert_eq!(agg.data.dataset.len(), 3);
    assert_eq!(agg.data.raw_traffic.len(), 1);
}

#[test]
fn cycle_without_packet_does_not_publish() {
    let mut agg = Aggregator::new();
    assert!(!agg.cycle(Some(false), None, None));
    assert!(!agg.cycle(None, None, Some((packet(0, ""), vec![]))));
}

#[test]
fn raw_traffic_counts_nonempty_packets() {
    let mut agg = Aggregator::new();
    let payloads = ["1", "", "2,3", "x", "", "4"];
    for (k, p) in payloads.iter().enumerate() {
        agg.cycle(None, None, Some((packet(k as u128, p), bits(&[1.0]))));
    }
    assert_eq!(agg.data.raw_traffic.len(), 4);
}

#[test]
fn column_labels_are_decimal() {
    assert_eq!(make_column_label(0), "Column 0");
    assert_eq!(make_column_label(12), "Column 12");
    assert_eq!(make_column_label(305), "Column 305");
}

#[test]
fn direction_labels() {
    assert_eq!(SerialDirection::Send.label(), "SEND");
    assert_eq!(SerialDirection::Receive.label(), "RECV");
}

#[test]
fn epoch_clock_is_after_2020() {
    assert!(serial_monitor::data::get_epoch_ms() > 1_577_836_800_000);
    let p: Packet<String> = Packet::default();
    assert_eq!(p.relative_time, 0);
    assert_eq!(p.direction, SerialDirection::Send);
    assert!(p.payload.is_empty());
}

#[test]
fn single_column_stream_records_rows() {
    let mut data: DataContainer<String> = DataContainer::default();
    let mut counter: i32 = 0;
    for k in 0..4u32 {
        assert!(parser(packet(k as u128, "7"), bits(&[k as f32]), &mut data, &mut counter));
    }
    assert_eq!(data.dataset, vec![bits(&[1.0, 2.0, 3.0])]);
    assert_eq!(data.time, vec![1, 2, 3]);
    assert_eq!(data.names, vec!["Column 0"]);
    assert_eq!(counter, 0);
}

#[test]
fn resync_to_one_column_then_rows() {
    let mut data: DataContainer<String> = DataContainer::default();
    let mut counter: i32 = 0;
    parser(packet(0, "1,2"), bits(&[1.0, 2.0]), &mut data, &mut counter);
    for k in 0..12 {
        parser(packet(1 + k, "5"), bits(&[5.0]), &mut data, &mut counter);
    }
    assert_eq!(data.dataset.len(), 1);
    parser(packet(50, "6"), bits(&[6.0]), &mut data, &mut counter);
    parser(packet(51, "7"), bits(&[7.0]), &mut data, &mut counter);
    assert_eq!(data.dataset[0].len(), data.time.len());
    assert_eq!(data.dataset[0], bits(&[6.0, 7.0]));
    assert_eq!(data.time, vec![50, 51]);
}

#[test]
fn clear_alone_is_published() {
    let mut agg = Aggregator::new();
    agg.cycle(None, None, Some((packet(0, "1,2"), bits(&[1.0, 2.0]))));
    assert!(agg.cycle(Some(true), None, None));
    assert_eq!(agg.data.names, vec!["Column 0"]);
    assert!(agg.data.raw_traffic.is_empty());
}

#[test]
fn raw_traffic_keeps_arrival_order() {
    let mut agg = Aggregator::new();
    let payloads = ["a", "", "1,2", "3"];
    for (k, p) in payloads.iter().enumerate() {
        agg.cycle(None, None, Some((packet(k as u128, p), bits(&[1.0]))));
    }
    let logged: Vec<&str> = agg.data.raw_traffic.iter().map(|p| p.payload.as_str()).collect();
    assert_eq!(logged, vec!["a", "1,2", "3"]);
}

#[test]
fn resync_after_rows_keeps_lengths_equal() {
    let mut agg = Aggregator::new();
    agg.cycle(None, None, Some((packet(0, "1"), bits(&[1.0]))));
    agg.cycle(None, None, Some((packet(1, "2"), bits(&[2.0]))));
    assert_eq!(agg.data.time, vec![1]);
    for k in 0..11 {
        agg.cycle(None, None, Some((packet(2 + k, "1,2"), bits(&[1.0, 2.0]))));
    }
    assert!(agg.cycle(None, None, Some((packet(20, "3,4"), bits(&[3.0, 4.0])))));
    assert_eq!(agg.data.dataset.len(), 2);
    assert!(agg.data.time.is_empty());
    assert!(agg.data.absolute_time.is_empty());
    assert!(agg.cycle(None, None, Some((packet(21, "5,6"), bits(&[5.0, 6.0])))));
    assert_eq!(agg.data.time, vec![21]);
    assert_eq!(agg.data.absolute_time, vec![1_021]);
    assert_eq!(agg.data.dataset, vec![bits(&[5.0]), bits(&[6.0])]);
    assert_eq!(export_table(&agg.data).unwrap().len(), 1);
}

#[test]
fn epoch_ms_of_readings() {
    assert_eq!(epoch_ms_of(None), 0);
    assert_eq!(epoch_ms_of(Some((0, 0))), 0);
    assert_eq!(epoch_ms_of(Some((2, 999_999))), 2_000);
    assert_eq!(epoch_ms_of(Some((1_700_000_000, 123_456_789))), 1_700_000_000_123);
    assert_eq!(epoch_ms_of(Some((u64::MAX, 999_999_999))), u64::MAX as u128 * 1000 + 999);
}
