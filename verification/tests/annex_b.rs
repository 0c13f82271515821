use waga_webrtc_core::annex_b::{access_unit, avcc_to_annex_b};

#[test]
fn converts_videotoolbox_avcc_to_annex_b() {
    let avcc = [0, 0, 0, 2, 0x67, 0x01, 0, 0, 0, 3, 0x65, 0x02, 0x03];

    assert_eq!(
        avcc_to_annex_b(&avcc).unwrap(),
        [0, 0, 0, 1, 0x67, 0x01, 0, 0, 0, 1, 0x65, 0x02, 0x03]
    );
    assert!(avcc_to_annex_b(&[0, 0, 0, 8, 1]).is_none());
}

#[test]
fn malformed_avcc_is_refused() {
    assert_eq!(avcc_to_annex_b(&[]), Some(vec![]));
    assert!(avcc_to_annex_b(&[0, 0, 1]).is_none());
    assert!(avcc_to_annex_b(&[0, 0, 0, 0]).is_none());
    assert!(avcc_to_annex_b(&[0, 0, 0, 1, 9, 0, 0]).is_none());
    assert!(avcc_to_annex_b(&[0xff, 0xff, 0xff, 0xff, 1]).is_none());
}

#[test]
fn annex_b_access_unit_passes_unchanged() {
    let unit = [0, 0, 0, 1, 0x65, 0x01];
    assert_eq!(access_unit(&unit), unit);
    assert_eq!(access_unit(&[0, 0, 0, 2, 0x65, 0x01]), unit);
}

#[test]
fn only_longer_avcc_units_change_an_access_unit() {
    let single = [0, 0, 0, 1, 0x65, 0, 0, 0, 1, 0x41];
    assert_eq!(avcc_to_annex_b(&single).unwrap(), single);
    assert_eq!(access_unit(&single), single);
    let h265 = [0, 0, 0, 1, 0x26, 0x01, 0, 0, 0, 1, 0x02, 0x01];
    assert!(avcc_to_annex_b(&h265).is_none());
    assert_eq!(access_unit(&h265), h265);
    let lookalike = [0, 0, 0, 1, 0x65, 0, 0, 0, 2, 7, 8];
    assert_eq!(access_unit(&lookalike), [0, 0, 0, 1, 0x65, 0, 0, 0, 1, 7, 8]);
}
