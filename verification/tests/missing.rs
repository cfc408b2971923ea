use jubako::main_pack::{PackInfo, PackPos};
use jubako::reader::missing::MayMissPack;

fn info() -> PackInfo {
    PackInfo {
        id: [7; 16],
        pack_id: 3,
        free_data: vec![1, 2, 3],
        pack_size: 100,
        pack_check_info: 80,
        pack_pos: PackPos::Path(b"pack.jbkc".to_vec()),
    }
}

#[test]
fn found_pack_is_mapped() {
    let m: MayMissPack<u32> = MayMissPack::FOUND(20);
    let m = m.map(|x| x + 1);
    assert_eq!(m.get(), Some(21));
}

#[test]
fn missing_pack_stays_missing() {
    let m: MayMissPack<u32> = MayMissPack::MISSING(info());
    match m.as_ref() {
        MayMissPack::MISSING(p) => assert_eq!(p, info()),
        MayMissPack::FOUND(_) => panic!("the pack is missing"),
    }
    let m = m.map(|x| x + 1);
    match &m {
        MayMissPack::MISSING(p) => assert_eq!(p, &info()),
        MayMissPack::FOUND(_) => panic!("the pack is missing"),
    }
    assert_eq!(m.get(), None);
}

#[test]
fn found_pack_unwraps() {
    let m: MayMissPack<&str> = MayMissPack::FOUND("content");
    match m.as_ref() {
        MayMissPack::FOUND(x) => assert_eq!(*x, "content"),
        MayMissPack::MISSING(_) => panic!("the pack is found"),
    }
    assert_eq!(m.unwrap(), "content");
}

#[test]
fn transpose_results() {
    let ok: MayMissPack<Result<u8, String>> = MayMissPack::FOUND(Ok(4));
    assert!(matches!(ok.transpose(), Ok(MayMissPack::FOUND(4))));
    let err: MayMissPack<Result<u8, String>> = MayMissPack::FOUND(Err("bad".to_string()));
    assert_eq!(err.transpose().err(), Some("bad".to_string()));
    let missing: MayMissPack<Result<u8, String>> = MayMissPack::MISSING(info());
    assert!(matches!(missing.transpose(), Ok(MayMissPack::MISSING(_))));
}

#[test]
fn pack_info_copy_is_equal() {
    let p = info();
    assert_eq!(p.copy(), p);
}
