use driver_env::packet::proc;

#[test]
fn proc_rewrites_the_station_addresses_and_reports_the_length() {
    let mut data = vec![0xFFu8; 20];
    let mut output_lengths = vec![0u16; 1];
    proc(&mut data, 1500, &mut output_lengths);
    assert_eq!(&data[..12], &[0, 0, 0, 0, 0, 1, 0, 0, 0, 0, 0, 0]);
    assert_eq!(&data[12..], &[0xFF; 8]);
    assert_eq!(output_lengths[0], 1500);
}

#[test]
fn proc_touches_nothing_beyond_the_first_output() {
    let mut data = vec![0xA5u8; 12];
    let mut output_lengths = vec![7u16, 9u16];
    proc(&mut data, 60, &mut output_lengths);
    assert_eq!(output_lengths[0], 60);
    assert_eq!(output_lengths[1], 9);
}
