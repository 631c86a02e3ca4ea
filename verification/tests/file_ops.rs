// The ported suite: each test builds the resource bytes in memory and
// hands them to `open`, in place of the fixture file the byte content
// came from.

use osfile::file::{open, size, tell, read, read_all, read_into, seek_from_begin, seek_from_current, seek_from_end, flush};

fn fixture() -> Vec<u8> {
    "Testing 1, 2, 3".as_bytes().to_vec()
}

#[test]
fn lib_test_file_open() {
    let fail0 = open(None);
    assert_eq!(fail0.is_err(), true);
}

#[test]
fn intergration_file_test_file_open() {
    let fail0 = open(None);
    assert_eq!(fail0.is_err(), true);
    let ok0 = open(Some(fixture()));
    assert_ne!(ok0.is_err(), true);
}

#[test]
fn test_file_flush() {
    let ok0 = open(Some(fixture()));
    assert_ne!(ok0.is_err(), true);
    let mut handle = ok0.unwrap();
    flush(&mut handle);
}

#[test]
fn test_file_size() {
    let ok0 = open(Some(fixture()));
    assert_ne!(ok0.is_err(), true);
    let handle = ok0.unwrap();
    assert_eq!(size(&handle), 15);
}

#[test]
fn test_file_read() {
    {
        let ok0 = open(Some(fixture()));
        assert_ne!(ok0.is_err(), true);
        let mut handle = ok0.unwrap();
        let mut v: Vec<u8> = Vec::new();
        v.resize(100, 0);

        let amount = read(&mut handle, &mut v);
        assert_eq!(amount, 15);
        v.resize(amount, 0);
        assert_eq!(v, "Testing 1, 2, 3".as_bytes());
    }

    {
        let ok1 = open(Some(fixture()));
        assert_ne!(ok1.is_err(), true);
        let mut handle = ok1.unwrap();
        let mut mem: Vec<u8> = Vec::new();
        mem.resize(15, 0);

        let amount = read(&mut handle, &mut mem);
        assert_eq!(amount, 15);
        assert_eq!(mem, "Testing 1, 2, 3".as_bytes());
    }
    {
        let ok1 = open(Some(fixture()));
        assert_ne!(ok1.is_err(), true);
        let mut handle = ok1.unwrap();
        let mut mem: Vec<u8> = Vec::new();
        mem.resize(100, 0);

        let amount0 = read_into(&mut handle, &mut mem, 0, 7);
        let amount1 = read_into(&mut handle, &mut mem, 7, 8);
        assert_eq!(amount0 + amount1, 15);
        mem.resize(15, 0);
        assert_eq!(mem, "Testing 1, 2, 3".as_bytes());
    }
    {
        let ok0 = open(Some(fixture()));
        assert_ne!(ok0.is_err(), true);
        let mut handle = ok0.unwrap();
        let mem = read_all(&mut handle);
        assert_eq!(mem, "Testing 1, 2, 3".as_bytes());
    }
}

#[test]
fn test_file_seek() {
    let ok0 = open(Some(fixture()));
    assert_ne!(ok0.is_err(), true);
    let mut handle = ok0.unwrap();
    assert_eq!(tell(&handle), 0);
    seek_from_begin(&mut handle, 0);
    assert_eq!(tell(&handle), 0);
    seek_from_current(&mut handle, 0);
    assert_eq!(tell(&handle), 0);

    let mut v: Vec<u8> = Vec::new();
    v.resize(100, 0);
    read(&mut handle, &mut v);
    assert_eq!(tell(&handle), 15);
    seek_from_begin(&mut handle, 0);
    assert_eq!(tell(&handle), 0);
    seek_from_end(&mut handle, -1);
    assert_eq!(tell(&handle), 14);
    let amt = read(&mut handle, &mut v);
    v.resize(amt, 0);
    assert_eq!(v, "3".as_bytes());
}
