use gping::log::CsvLogger;

fn ms(v: u64) -> u64 {
    v * 1000
}

#[test]
fn header_names_gateway_then_isp_hops() {
    let (_, header) = CsvLogger::new(3);
    assert_eq!(header, "Time, Gateway, ISP Hop 1, ISP Hop 2\n");
}

#[test]
fn row_waits_for_every_target() {
    let (mut log, _) = CsvLogger::new(3);
    assert_eq!(log.log(0, ms(10)), None);
    assert_eq!(log.log(2, ms(30)), None);
    assert_eq!(log.log(0, ms(11)), None);
    assert_eq!(log.log(1, ms(20)), Some("0.0,10,20,30,\n".to_string()));
    assert_eq!(log.log(2, ms(31)), None);
    assert_eq!(log.log(1, ms(21)), Some("0.2,11,21,31,\n".to_string()));
}

#[test]
fn row_time_is_synthetic() {
    let (mut log, _) = CsvLogger::new(1);
    let mut last = None;
    for i in 0..6u64 {
        last = log.log(0, ms(i));
    }
    assert_eq!(last, Some("1.0,5,\n".to_string()));
}

#[test]
fn millis_are_truncated() {
    let (mut log, _) = CsvLogger::new(1);
    assert_eq!(log.log(0, 12_999), Some("0.0,12,\n".to_string()));
}

#[test]
fn percentiles_of_five_values() {
    let (mut log, _) = CsvLogger::new(1);
    for v in [50u64, 10, 40, 20, 30] {
        log.log(0, ms(v));
    }
    assert_eq!(
        log.summary(),
        Some(",30,Average\n,,\n,,\n,50,95th percentile\n,50,99th percentile\n".to_string())
    );
}

#[test]
fn percentiles_of_twenty_values() {
    let (mut log, _) = CsvLogger::new(2);
    for v in 1..=20u64 {
        log.log(0, ms(v));
        log.log(1, ms(21 - v) + 999);
    }
    assert_eq!(
        log.summary(),
        Some(",10,10,Average\n,,,\n,,,\n,20,20,95th percentile\n,20,20,99th percentile\n".to_string())
    );
}

#[test]
fn average_truncates() {
    let (mut log, _) = CsvLogger::new(1);
    log.log(0, ms(1));
    log.log(0, ms(2));
    assert_eq!(
        log.summary(),
        Some(",1,Average\n,,\n,,\n,2,95th percentile\n,2,99th percentile\n".to_string())
    );
}

#[test]
fn empty_column_has_no_summary() {
    let (mut log, header) = CsvLogger::new(2);
    log.log(0, ms(5));
    assert_eq!(log.summary(), None);
    assert_eq!(log.finalize(&header), None);
}

#[test]
fn finalize_keeps_data_after_summary() {
    let (mut log, header) = CsvLogger::new(2);
    let mut data = header.clone();
    for (t, v) in [(0usize, 7u64), (1, 9), (0, 8), (1, 12), (0, 3)] {
        if let Some(row) = log.log(t, ms(v)) {
            data.push_str(&row);
        }
    }
    let done = log.finalize(&data).unwrap();
    let block = log.summary().unwrap();
    assert_eq!(block, ",6,10,Average\n,,,\n,,,\n,8,12,95th percentile\n,8,12,99th percentile\n");
    assert_eq!(done, format!("{}{}", block, data));
    assert_eq!(data, "Time, Gateway, ISP Hop 1\n0.0,7,9,\n0.2,8,12,\n");
}
