use rand::{thread_rng, Rng};
use varint::{get_i64, get_u64, put_i64, put_u64, ErrorKind, MAX_VARINT_LEN_U64};

#[test]
fn uvarint_test() {
    let mut rng = thread_rng();
    let mut buf = Vec::with_capacity(MAX_VARINT_LEN_U64);

    let mut nums = vec![0; 10000];
    rng.fill(&mut nums[..]);
    for num in nums {
        buf.clear();

        let written = put_u64(&mut buf, num);
        assert!(
            written <= MAX_VARINT_LEN_U64,
            "written bytes should be less or equal to {}, got {}, number={}",
            MAX_VARINT_LEN_U64,
            written,
            num
        );

        assert_eq!(
            get_u64(&buf[..written - 1]),
            Err(ErrorKind::ShortOfData(written - 1)),
            "data w/o last byte should lead to a short of data error"
        );

        let decoded = get_u64(&buf[..]);
        assert_eq!(
            decoded,
            Ok((num, written)),
            "expected decoded u64 number {}, bytes length {},  got {:?}, buffer content={:?}",
            num,
            written,
            decoded,
            buf
        );
    }
}

#[test]
fn varint_test() {
    let mut rng = thread_rng();
    let mut buf = Vec::with_capacity(MAX_VARINT_LEN_U64);

    let mut nums = vec![0; 10000];
    rng.fill(&mut nums[..]);
    for num in nums {
        buf.clear();

        let written = put_i64(&mut buf, num);
        assert!(
            written <= MAX_VARINT_LEN_U64,
            "written bytes should be less or equal to {}, got {}, number={}",
            MAX_VARINT_LEN_U64,
            written,
            num
        );

        assert_eq!(
            get_i64(&buf[..written - 1]),
            Err(ErrorKind::ShortOfData(written - 1)),
            "data w/o last byte should lead to a short of data error"
        );

        let decoded = get_i64(&buf[..]);
        assert_eq!(
            decoded,
            Ok((num, written)),
            "expected decoded i64 number {}, bytes length {}, got {:?}, buffer content={:?}",
            num,
            written,
            decoded,
            buf
        );
    }
}

#[test]
fn uvarint_error_test() {
    let data = vec![
        0x80, 0x80, 0x80, 0x80, 0x80, 0x80, 0x80, 0x80, 0x80, 0x80, 0x80, 0x79,
    ];

    assert!(
        get_u64(&data[5..]).is_ok(),
        "shoud be valid data of length 7"
    );

    assert!(
        get_u64(&data[2..]).is_ok(),
        "shoud be valid data of length 10"
    );

    assert_eq!(
        get_u64(&data[..9]),
        Err(ErrorKind::ShortOfData(9)),
        "expected err short of data for &data[..9]"
    );

    assert_eq!(
        get_u64(&data[..10]),
        Err(ErrorKind::Overflow(10)),
        "expected err overflow for &data[..10]"
    );

    assert_eq!(
        get_u64(&data[..11]),
        Err(ErrorKind::Overflow(10)),
        "expected err overflow for &data[..11]"
    );
}

#[test]
fn encode_300_test() {
    let mut buf = Vec::new();
    let written = put_u64(&mut buf, 300);
    assert_eq!(written, 2);
    assert_eq!(buf, vec![0xac, 0x02]);
    assert_eq!(get_u64(&buf[..]), Ok((300, 2)));
}

#[test]
fn encode_zero_test() {
    let mut buf = Vec::new();
    let written = put_u64(&mut buf, 0);
    assert_eq!(written, 1);
    assert_eq!(buf, vec![0x00]);
    assert_eq!(get_u64(&buf[..]), Ok((0, 1)));
}

#[test]
fn encode_minus_one_test() {
    let mut buf = Vec::new();
    let written = put_i64(&mut buf, -1);
    assert_eq!(written, 1);
    assert_eq!(buf, vec![0x01]);
    assert_eq!(get_i64(&buf[..]), Ok((-1, 1)));
}

#[test]
fn ten_byte_limit_test() {
    let data = vec![
        0x80, 0x80, 0x80, 0x80, 0x80, 0x80, 0x80, 0x80, 0x80, 0x79,
    ];

    assert!(get_u64(&data[..]).is_ok());
    assert_eq!(get_u64(&data[..9]), Err(ErrorKind::ShortOfData(9)));

    let mut longer = data.clone();
    longer[9] = 0x80;
    longer.push(0x80);
    assert_eq!(get_u64(&longer[..]), Err(ErrorKind::Overflow(10)));
}

#[test]
fn max_values_length_test() {
    let mut buf = Vec::new();
    let written = put_u64(&mut buf, u64::MAX);
    assert_eq!(written, 10);
    assert_eq!(
        buf,
        vec![0xff, 0xff, 0xff, 0xff, 0xff, 0xff, 0xff, 0xff, 0xff, 0x01]
    );
    assert_eq!(get_u64(&buf[..]), Ok((u64::MAX, 10)));

    buf.clear();
    assert_eq!(put_u64(&mut buf, 127), 1);
    buf.clear();
    assert_eq!(put_u64(&mut buf, 128), 2);
}

#[test]
fn append_keeps_content_test() {
    let mut buf = vec![0xaa, 0xbb];
    let written = put_u64(&mut buf, 300);
    assert_eq!(written, 2);
    assert_eq!(buf, vec![0xaa, 0xbb, 0xac, 0x02]);
}

#[test]
fn empty_input_test() {
    let data: Vec<u8> = Vec::new();
    assert_eq!(get_u64(&data[..]), Err(ErrorKind::ShortOfData(0)));
    assert_eq!(get_i64(&data[..]), Err(ErrorKind::ShortOfData(0)));
}

#[test]
fn signed_roundtrip_edges_test() {
    for num in [i64::MIN, i64::MIN + 1, -2, -1, 0, 1, 2, i64::MAX - 1, i64::MAX] {
        let mut buf = Vec::new();
        let written = put_i64(&mut buf, num);
        assert!(1 <= written && written <= MAX_VARINT_LEN_U64);
        assert_eq!(get_i64(&buf[..]), Ok((num, written)));
    }
}

#[test]
fn max_varint_len_constants_test() {
    assert_eq!(varint::MAX_VARINT_LEN_U16, 3);
    assert_eq!(varint::MAX_VARINT_LEN_U32, 5);
    assert_eq!(varint::MAX_VARINT_LEN_U64, 10);
}
