use nl80211scan::ie::extract_element;
use nl80211scan::ie::extract_ssid;

#[test]
fn ssid_found_first() {
    // id 0, length 3, "foo", then a second element (id 1, length 2).
    let blob: Vec<u8> = vec![0, 3, b'f', b'o', b'o', 1, 2, 0, 0];
    assert_eq!(extract_ssid(&blob), b"foo".to_vec());
}

#[test]
fn ssid_found_after_other_elements() {
    let blob: Vec<u8> = vec![7, 2, 9, 9, 0, 2, b'h', b'i'];
    assert_eq!(extract_ssid(&blob), b"hi".to_vec());
}

#[test]
fn ssid_overrun_terminates_cleanly() {
    // The element declares 10 data bytes but only 2 remain.
    let blob: Vec<u8> = vec![0, 10, 1, 2];
    assert_eq!(extract_ssid(&blob), Vec::<u8>::new());
}

#[test]
fn ssid_absent() {
    let blob: Vec<u8> = vec![1, 2, 0, 0, 5, 1, 7];
    assert_eq!(extract_ssid(&blob), Vec::<u8>::new());
}

#[test]
fn ssid_empty_blob() {
    assert_eq!(extract_ssid(&Vec::new()), Vec::<u8>::new());
}

#[test]
fn element_walk_steps_and_stops() {
    let blob: Vec<u8> = vec![4, 1, 0xaa, 0, 0, 9, 9];
    let mut pos = 0usize;
    let first = extract_element(&blob, &mut pos);
    assert_eq!(first, Some((4, vec![0xaa])));
    assert_eq!(pos, 3);
    // Second element: id 0, length 0, no data.
    let second = extract_element(&blob, &mut pos);
    assert_eq!(second, Some((0, Vec::new())));
    assert_eq!(pos, 5);
    // Third header declares 9 data bytes; none remain: the walk ends.
    let third = extract_element(&blob, &mut pos);
    assert_eq!(third, None);
    assert_eq!(pos, 5);
}
