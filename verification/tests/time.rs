use httpdt::date::D_AS_S;
use httpdt::time::{ImfFixdateTime, Time, D_AS_H, H_AS_M, H_AS_S, M_AS_S};

const JAN_01_1970_00_00_00: Time = Time { h: 0, m: 0, s: 0, xs: 0 };
const JAN_01_1970_00_00_59: Time = Time { h: 0, m: 0, s: (M_AS_S - 1) as u8, xs: 0 };
const JAN_01_1970_00_01_00: Time = Time { h: 0, m: 1, s: 0, xs: 0 };
const JAN_01_1970_00_59_59: Time =
    Time { h: 0, m: (H_AS_M - 1) as u8, s: (M_AS_S - 1) as u8, xs: 0 };
const JAN_01_1970_01_00_00: Time = Time { h: 1, m: 0, s: 0, xs: 0 };
const JAN_01_1970_23_59_59: Time =
    Time { h: (D_AS_H - 1) as u8, m: (H_AS_M - 1) as u8, s: (M_AS_S - 1) as u8, xs: 0 };
const JAN_02_1970_00_00_00: Time = Time { h: 0, m: 0, s: 0, xs: D_AS_S };

#[test]
fn time_default() {
    assert_eq!(JAN_01_1970_00_00_00, Time::default());
}

#[test]
fn time_from() {
    assert_eq!(JAN_01_1970_00_00_00, Time::from(0));
    assert_eq!(JAN_01_1970_00_00_59, Time::from(M_AS_S - 1));
    assert_eq!(JAN_01_1970_00_01_00, Time::from(M_AS_S));
    assert_eq!(JAN_01_1970_00_59_59, Time::from(H_AS_S - 1));
    assert_eq!(JAN_01_1970_01_00_00, Time::from(H_AS_S));
    assert_eq!(JAN_01_1970_23_59_59, Time::from(D_AS_S - 1));
    assert_eq!(JAN_02_1970_00_00_00, Time::from(D_AS_S));
}

#[test]
fn time_for_header() {
    assert_eq!(String::from("00:00:00"), JAN_01_1970_00_00_00.for_header());
    assert_eq!(String::from("00:00:59"), JAN_01_1970_00_00_59.for_header());
    assert_eq!(String::from("00:01:00"), JAN_01_1970_00_01_00.for_header());
    assert_eq!(String::from("00:59:59"), JAN_01_1970_00_59_59.for_header());
    assert_eq!(String::from("01:00:00"), JAN_01_1970_01_00_00.for_header());
    assert_eq!(String::from("23:59:59"), JAN_01_1970_23_59_59.for_header());
    assert_eq!(String::from("00:00:00"), JAN_02_1970_00_00_00.for_header());
}

#[test]
fn time_constants() {
    assert_eq!(60, M_AS_S);
    assert_eq!(60, H_AS_M);
    assert_eq!(3_600, H_AS_S);
    assert_eq!(24, D_AS_H);
    assert_eq!(86_400, D_AS_S);
}

#[test]
fn time_from_round_trip() {
    let samples: [u64; 9] = [
        0,
        59,
        60,
        3_599,
        86_399,
        86_400,
        951_782_399,
        1_735_689_599,
        u64::MAX,
    ];
    for secs in samples {
        let time = Time::from(secs);
        assert!(time.h < 24);
        assert!(time.m < 60);
        assert!(time.s < 60);
        assert_eq!(0, time.xs % D_AS_S);
        assert_eq!(
            secs,
            time.xs + time.h as u64 * H_AS_S + time.m as u64 * M_AS_S + time.s as u64
        );
    }
}

#[test]
fn time_from_exact_fields() {
    // 1994-11-06 08:49:37 is 784111777 seconds after the epoch.
    assert_eq!(Time { h: 8, m: 49, s: 37, xs: 9_075 * D_AS_S }, Time::from(784_111_777));
    assert_eq!(
        Time { h: 7, m: 0, s: 15, xs: 213_503_982_334_601 * D_AS_S },
        Time::from(u64::MAX)
    );
}

#[test]
fn time_for_header_pads_each_field() {
    assert_eq!("08:49:37", Time::from(784_111_777).for_header());
    assert_eq!("09:05:03", Time { h: 9, m: 5, s: 3, xs: 0 }.for_header());
    assert_eq!("10:10:10", Time { h: 10, m: 10, s: 10, xs: 0 }.for_header());
}

#[test]
fn time_for_header_writes_wide_fields_in_full() {
    assert_eq!("100:200:255", Time { h: 100, m: 200, s: 255, xs: 0 }.for_header());
}

#[test]
fn time_fixdate_text_is_the_header_text() {
    let time = Time::from(86_399);
    assert_eq!("23:59:59", ImfFixdateTime(&time).to_string());
    assert_eq!(time.for_header(), ImfFixdateTime(&time).to_string());
}
