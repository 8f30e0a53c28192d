use substreams_solana_core::address::Address;
use substreams_solana_core::base58::{self, DecodeError};

#[test]
fn it_address_equality_works() {
    let data: Vec<u8> = vec![1, 2, 3];
    let address = Address(&data);

    assert_eq!(&address, &address);
    assert_eq!(&address, Address(&data));
    assert_eq!(Address(&data), &address);
    assert_eq!(Address(&data), Address(&data));

    assert_eq!(address, vec![1, 2, 3]);
    assert_eq!(&address, vec![1, 2, 3]);
    assert_eq!(address, &vec![1, 2, 3]);
    assert_eq!(&address, &vec![1, 2, 3]);

    assert_eq!(vec![1, 2, 3], address);
    assert_eq!(vec![1, 2, 3], &address);
    assert_eq!(&vec![1, 2, 3], address);
    assert_eq!(&vec![1, 2, 3], &address);

    let fixed: [u8; 3] = [1, 2, 3];

    assert_eq!(&address, &[1, 2, 3]);
    assert_eq!(&address, &fixed);
    assert_eq!(&address, [1u8, 2u8, 3u8]);
    assert_eq!(address, &[1, 2, 3]);
    assert_eq!(address, &fixed);
    assert_eq!(address, [1u8, 2u8, 3u8]);

    assert_eq!(&[1, 2, 3], &address);
    assert_eq!(&fixed, &address);
    assert_eq!([1u8, 2u8, 3u8], &address);
    assert_eq!(&[1, 2, 3], address);
    assert_eq!(&fixed, address);
    assert_eq!([1u8, 2u8, 3u8], address);
}

#[test]
fn it_address_inequality_works() {
    let data: Vec<u8> = vec![1, 2, 3];
    let other: Vec<u8> = vec![1, 2, 4];
    let short: Vec<u8> = vec![1, 2];
    assert_ne!(Address(&data), Address(&other));
    assert_ne!(Address(&data), Address(&short));
    assert_ne!(Address(&data), vec![1, 2, 4]);
    assert_ne!(Address(&data), [1u8, 2, 4]);
    assert_ne!([1u8, 2], Address(&data));
    assert_ne!(vec![1, 2, 4], Address(&data));
}

#[test]
fn it_address_to_string_encodes_base58() {
    let data: Vec<u8> = vec![1, 2, 3];
    assert_eq!("Ldp", Address(&data).to_string());
    let empty: Vec<u8> = vec![];
    assert_eq!("", Address(&empty).to_string());
    let zeros: Vec<u8> = vec![0, 0, 1];
    assert_eq!("112", Address(&zeros).to_string());
}

#[test]
fn it_encodes_base58() {
    assert_eq!("Ldp", base58::encode(&vec![1, 2, 3]));
    assert_eq!("", base58::encode(&vec![]));
    assert_eq!(
        "he11owor1d",
        base58::encode(&vec![0x04, 0x30, 0x5e, 0x2b, 0x24, 0x73, 0xf0, 0x58])
    );
}

#[test]
fn it_decodes_base58() {
    assert_eq!(Ok(vec![1, 2, 3]), base58::decode("Ldp"));
    assert_eq!(
        Ok(vec![0x04, 0x30, 0x5e, 0x2b, 0x24, 0x73, 0xf0, 0x58]),
        base58::decode("he11owor1d")
    );
    assert_eq!(Ok(vec![]), base58::decode(""));
}

#[test]
fn it_reports_base58_decode_errors() {
    assert_eq!(
        Err(DecodeError::InvalidCharacter {
            character: '0',
            index: 0,
        }),
        base58::decode("0")
    );
    assert_eq!(
        Err(DecodeError::InvalidCharacter {
            character: 'I',
            index: 2,
        }),
        base58::decode("abIcd")
    );
    assert_eq!(
        Err(DecodeError::NonAsciiCharacter { index: 1 }),
        base58::decode("a\u{00e9}b")
    );
}

#[test]
fn it_round_trips_base58() {
    let data: Vec<u8> = vec![0, 0, 255, 17, 42, 1];
    let text = base58::encode(&data);
    assert_eq!(Ok(data), base58::decode(&text));
}
