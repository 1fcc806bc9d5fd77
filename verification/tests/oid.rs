use jj_spr::oid::Oid;

#[test]
fn ids_are_read_as_git_reads_them() {
    let long = "0123456789abcdefABCDEF0123456789abcdef01";
    let longer = format!("{}0", long);
    let wide = "ä".repeat(20);
    let wider = "ä".repeat(21);
    for text in [
        "", "a", "abc", "ABC", "g", "12 ", "-1", "ä", long, &longer, &wide, &wider,
    ] {
        let ours = Oid::from_str(text);
        match git2::Oid::from_str(text) {
            Ok(oid) => assert_eq!(&ours.unwrap().id[..], oid.as_bytes()),
            Err(error) => assert_eq!(ours.unwrap_err(), error.to_string()),
        }
    }
}

#[test]
fn short_texts_are_filled_up() {
    let oid = Oid::from_str("ABc").unwrap();
    assert_eq!(oid.id[0], 0xab);
    assert_eq!(oid.id[1], 0xc0);
    assert!(oid.id[2..].iter().all(|byte| *byte == 0));
    assert_eq!(oid.to_hex(), "abc0000000000000000000000000000000000000");
    assert_eq!(oid.short_id(), "abc0000");
}

#[test]
fn written_ids_are_read_back() {
    let mut id = [0u8; 20];
    for (i, byte) in id.iter_mut().enumerate() {
        *byte = (13 * i + 5) as u8;
    }
    let oid = Oid { id };
    assert_eq!(oid.to_hex().len(), 40);
    assert_eq!(Oid::from_str(&oid.to_hex()).unwrap(), oid);
}

#[test]
fn texts_that_name_no_object() {
    assert_eq!(
        Oid::from_str("").unwrap_err(),
        "unable to parse OID - too short; class=Invalid (3)"
    );
    for text in ["0".repeat(41), "z".repeat(41), "ä".repeat(21)] {
        assert_eq!(
            Oid::from_str(&text).unwrap_err(),
            "unable to parse OID - too long; class=Invalid (3)"
        );
    }
    for text in ["z".repeat(40), "ä".repeat(20), "1 ".to_string()] {
        assert_eq!(
            Oid::from_str(&text).unwrap_err(),
            "unable to parse OID - contains invalid characters; class=Invalid (3)"
        );
    }
}
