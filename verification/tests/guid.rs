use hyperv_virtiofs::guid::{guid_from_string, guid_to_string};
use hyperv_virtiofs::sys::{
    FLEXIO_DEVICE_ID, GUID, HVFS_DEVICE_CLASS_ID, HVFS_DEVICE_HOST_ID, HVFS_DEVICE_INSTANCE_ID,
    IID_IUNKNOWN, IID_IVMDEVICEHOSTSUPPORT, IID_IVM_FIOV_GUEST_MEMORY_FAST_NOTIFICATION,
    IID_IVM_FIOV_GUEST_MMIO_MAPPINGS, IID_IVM_VIRTUAL_DEVICE_ACCESS, VIRTIO_FS_DEVICE_CLASS_ID,
};
use hyperv_virtiofs::text::white;

#[test]
fn to_string_is_canonical_lowercase_no_braces() {
    assert_eq!(
        guid_to_string(&VIRTIO_FS_DEVICE_CLASS_ID()),
        "872270e1-a899-4af6-b454-7193634435ad"
    );
}

#[test]
fn well_known_constants_round_trip() {
    for g in [
        HVFS_DEVICE_CLASS_ID(),
        HVFS_DEVICE_INSTANCE_ID(),
        HVFS_DEVICE_HOST_ID(),
        VIRTIO_FS_DEVICE_CLASS_ID(),
    ] {
        let s = guid_to_string(&g);
        let parsed = guid_from_string(&s).expect("canonical string must parse");
        assert_eq!(guid_to_string(&parsed), s, "round-trip must be stable");
    }
}

#[test]
fn from_string_accepts_braces_and_uppercase() {
    let canonical = "872270e1-a899-4af6-b454-7193634435ad";
    let variants = [
        "872270E1-A899-4AF6-B454-7193634435AD",
        "{872270e1-a899-4af6-b454-7193634435ad}",
        "  872270e1-a899-4af6-b454-7193634435ad  ",
        "{872270E1-A899-4AF6-B454-7193634435AD}",
    ];
    for v in variants {
        let g = guid_from_string(v).unwrap_or_else(|| panic!("should parse: {v:?}"));
        assert_eq!(guid_to_string(&g), canonical, "variant {v:?}");
    }
}

#[test]
fn from_string_rejects_malformed() {
    let bad = [
        "",
        "not-a-guid",
        "872270e1-a899-4af6-b454",
        "872270e1-a899-4af6-b454-7193634435ad-extra",
        "872270e1a899-4af6-b454-7193634435ad",
        "gggggggg-a899-4af6-b454-7193634435ad",
        "872270e1-a899-4af6-b454-7193634435a",
    ];
    for b in bad {
        assert!(guid_from_string(b).is_none(), "should reject {b:?}");
    }
}

#[test]
fn class_id_differs_from_instance_id() {
    assert_ne!(
        guid_to_string(&HVFS_DEVICE_CLASS_ID()),
        guid_to_string(&HVFS_DEVICE_INSTANCE_ID())
    );
}

#[test]
fn well_known_ids_have_their_values() {
    let known = [
        (IID_IUNKNOWN(), "00000000-0000-0000-c000-000000000046"),
        (IID_IVMDEVICEHOSTSUPPORT(), "e31aa49b-0914-465e-b145-1b9ba13efb10"),
        (IID_IVM_VIRTUAL_DEVICE_ACCESS(), "3e57bd3c-5a5d-4bdc-a0a6-5b4193d4b719"),
        (
            IID_IVM_FIOV_GUEST_MEMORY_FAST_NOTIFICATION(),
            "f5dfbec1-b9f3-4b26-bf6f-c251448bcf7a",
        ),
        (IID_IVM_FIOV_GUEST_MMIO_MAPPINGS(), "9d416457-abbc-46cf-8b93-901c68bec627"),
        (FLEXIO_DEVICE_ID(), "a8679153-843f-467f-ad7e-f429328f7568"),
        (HVFS_DEVICE_CLASS_ID(), "a7e11e40-0001-4a7e-9c00-a7e100000001"),
        (HVFS_DEVICE_INSTANCE_ID(), "a7e11e40-0001-4a7e-9c00-a7e100000002"),
        (HVFS_DEVICE_HOST_ID(), "a7e11e40-0001-4a7e-9c00-a7e100000003"),
    ];
    for (g, text) in known {
        assert_eq!(guid_to_string(&g), text);
        assert!(guid_from_string(text).unwrap().same(&g));
    }
}

#[test]
fn every_field_is_read_from_its_place() {
    let g = guid_from_string("01234567-89ab-cdef-0123-456789abcdef").unwrap();
    assert_eq!(
        g,
        GUID {
            Data1: 0x0123_4567,
            Data2: 0x89ab,
            Data3: 0xcdef,
            Data4: [0x01, 0x23, 0x45, 0x67, 0x89, 0xab, 0xcd, 0xef],
        }
    );
}

#[test]
fn braces_count_only_in_pairs_and_only_inside_white_space() {
    assert!(guid_from_string("{872270e1-a899-4af6-b454-7193634435ad").is_none());
    assert!(guid_from_string("872270e1-a899-4af6-b454-7193634435ad}").is_none());
    assert!(guid_from_string("{ 872270e1-a899-4af6-b454-7193634435ad }").is_none());
    assert!(guid_from_string("{{872270e1-a899-4af6-b454-7193634435ad}}").is_none());
    assert!(guid_from_string("\t\u{3000}{872270e1-a899-4af6-b454-7193634435ad}\u{a0}\n").is_some());
}

#[test]
fn signs_and_letters_of_other_scripts_are_malformed() {
    assert!(guid_from_string("+72270e1-a899-4af6-b454-7193634435ad").is_none());
    assert!(guid_from_string("872270e1-+899-4af6-b454-7193634435ad").is_none());
    assert!(guid_from_string("872270e1-a899-4af6-a\u{e9}b-7193634435ad").is_none());
    assert!(guid_from_string("872270e1-a899-4af6-b454-71936344\u{ff13}5ad").is_none());
}

#[test]
fn white_space_is_that_of_unicode() {
    for n in 0..=0x10_ffffu32 {
        if let Some(c) = char::from_u32(n) {
            assert_eq!(white(c), c.is_whitespace(), "{n:#x}");
        }
    }
}
