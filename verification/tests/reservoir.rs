use mp3_codec::error::Error;
use mp3_codec::reservoir::BitResevoir;

#[test]
fn fill_appends_after_carried_tail() {
    let mut res = BitResevoir::new();
    assert_eq!(res.len(), 0);

    // First frame: nothing to carry over.
    res.fill(0, &[1, 2, 3, 4, 5]).unwrap();
    assert_eq!(res.bytes_ref(), &[1, 2, 3, 4, 5]);

    // Second frame reaches 3 bytes back: the last 3 bytes of the previous
    // contents move to the front, the new data follows.
    res.fill(3, &[9, 8]).unwrap();
    assert_eq!(res.bytes_ref(), &[3, 4, 5, 9, 8]);
    // Length is main_data_begin plus the bytes read.
    assert_eq!(res.len(), 3 + 2);
}

#[test]
fn fill_rejects_reaching_past_contents() {
    let mut res = BitResevoir::new();
    res.fill(0, &vec![7u8; 50]).unwrap();
    assert_eq!(res.len(), 50);

    // main_data_begin = 100 while only 50 bytes are held.
    let e = res.fill(100, &[0, 0]).unwrap_err();
    assert!(matches!(e, Error::InvalidMainDataBegin));
    assert_eq!(e.message(), "Invalid main_data_begin offset.");
    // The reservoir is untouched by the failed fill.
    assert_eq!(res.len(), 50);
    assert_eq!(res.bytes_ref(), &vec![7u8; 50][..]);
}

#[test]
fn fill_carries_whole_buffer() {
    let mut res = BitResevoir::new();
    res.fill(0, &[10, 20, 30]).unwrap();
    res.fill(3, &[40]).unwrap();
    assert_eq!(res.bytes_ref(), &[10, 20, 30, 40]);
}
