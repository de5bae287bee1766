use neogrok::ext::BufferSize;
use neogrok::frame::TransportProtocol;
use neogrok::meta::UserMeta;
use neogrok::rights::{
    error_to_string, ErrorToString, RightsFlags, RightsToString, CAN_CREATE_TCP, CAN_SELECT_TCP,
};
use neogrok::rights_flags;
use neogrok::side::CodecSide;
use neogrok::wire::{
    pack_type, serialize_variadic, unpack_type, TypeFlags, ACCESS_DENIED, COMPRESSED, C_SHORT,
    SHORT, TOO_LONG, UNKNOWN_PKT,
};

#[test]
fn header_round_trip_all_valid_pairs() {
    for t in 0u8..32 {
        for f in 0u8..8 {
            let packed = pack_type(t, f);
            assert_eq!(unpack_type(packed), (t, f));
        }
    }
}

#[test]
fn header_layout_is_type_then_flags() {
    assert_eq!(pack_type(4, 0b101), (4 << 3) | 0b101);
    assert_eq!(unpack_type(0b00100_101), (0b00100, 0b101));
}

#[test]
fn variadic_encodes_one_byte_iff_small() {
    let mut small: Vec<u8> = Vec::new();
    assert!(serialize_variadic(&mut small, 255));
    assert_eq!(small, vec![255]);

    let mut wide: Vec<u8> = Vec::new();
    assert!(!serialize_variadic(&mut wide, 256));
    assert_eq!(wide, vec![0x00, 0x01]);
}

#[test]
fn variadic_round_trip_all_values() {
    let reader = neogrok::reader::CodecReader::client();
    for v in [0u16, 1, 127, 254, 255, 256, 257, 4660, 65534, 65535] {
        let mut buf: Vec<u8> = Vec::new();
        let short = serialize_variadic(&mut buf, v);
        assert_eq!(short, v <= 255);
        assert_eq!(buf.len(), if v <= 255 { 1 } else { 2 });
        let flags = if short { C_SHORT } else { 0 };
        let got = reader.read_variadic(&buf, 0, flags, C_SHORT).unwrap();
        assert_eq!(got, (v, buf.len()));
    }
}

#[test]
fn type_flags_read_the_right_bits() {
    assert!(SHORT.is_short());
    assert!(!SHORT.is_c_short());
    assert!(!SHORT.is_compressed());
    assert!(C_SHORT.is_c_short());
    assert!(COMPRESSED.is_compressed());
    let all = SHORT | C_SHORT | COMPRESSED;
    assert!(all.is_short() && all.is_c_short() && all.is_compressed());
    assert!(!0u8.is_short() && !0u8.is_c_short() && !0u8.is_compressed());
}

#[test]
fn error_strings_name_each_code() {
    assert_eq!(error_to_string(ACCESS_DENIED), "Access Denied");
    assert_eq!(error_to_string(UNKNOWN_PKT), "Unknown packet sent");
    assert_eq!(error_to_string(TOO_LONG), "Too long packet buffer");
    assert_eq!(error_to_string(0), "Currently this feature is not supported");
    assert_eq!(error_to_string(2), "Can't bind specified port (Possibly already bound)");
    assert_eq!(error_to_string(4), "Unsupported packet type");
    assert_eq!(error_to_string(6), "Buffer decompression error");
    assert_eq!(error_to_string(200), "Unknown error");
    assert_eq!(ACCESS_DENIED.to_error_string(), "Access Denied");
}

#[test]
fn rights_flags_read_the_right_bits() {
    let rights = CAN_CREATE_TCP | CAN_SELECT_TCP;
    assert!(rights.can_create_tcp());
    assert!(rights.can_select_tcp_port());
    assert!(!rights.can_create_udp());
    assert!(!rights.can_create_http());
    assert!(!rights.can_select_udp_port());
    assert!(!rights.can_select_http_path());
}

#[test]
fn show_rights_names_set_bits() {
    assert_eq!(0u8.show_rights(), "No rights");
    assert_eq!(CAN_CREATE_TCP.show_rights(), "CAN_CREATE_TCP |");
    assert_eq!(
        (CAN_CREATE_TCP | CAN_SELECT_TCP).show_rights(),
        "CAN_CREATE_TCP |CAN_SELECT_TCP |"
    );
}

#[test]
fn user_meta_masks_behave() {
    let mut meta = UserMeta::new(0);
    assert!(!meta.has_rights(rights_flags::CREATE_SERVER));
    assert_eq!(meta.grant_rights(rights_flags::CREATE_SERVER), 1);
    assert!(meta.has_rights(rights_flags::CREATE_SERVER));
    assert_eq!(meta.grant_rights(rights_flags::SELECT_PORT), 3);
    assert_eq!(meta.reject_rights(rights_flags::CREATE_SERVER), 2);
    assert!(!meta.has_rights(rights_flags::CREATE_SERVER));
    assert_eq!(meta.replace_rights(rights_flags::all()), 3);
    assert!(meta.has_rights(rights_flags::all()));
}

#[test]
fn user_meta_rights_to_string_names_bits() {
    assert_eq!(
        UserMeta::rights_to_string(rights_flags::all()),
        "CREATE_SERVER | SELECT_PORT"
    );
    assert_eq!(UserMeta::rights_to_string(rights_flags::CREATE_SERVER), "CREATE_SERVER");
    assert_eq!(UserMeta::rights_to_string(rights_flags::SELECT_PORT), "SELECT_PORT");
}

#[test]
fn transport_protocol_codes_round_trip() {
    for p in [TransportProtocol::Tcp, TransportProtocol::Udp, TransportProtocol::Http] {
        assert_eq!(TransportProtocol::from_code(p.code()), p);
    }
    assert_eq!(TransportProtocol::from_code(200), TransportProtocol::Tcp);
    assert_eq!(TransportProtocol::default(), TransportProtocol::Tcp);
}

#[test]
fn codec_side_tells_the_ends_apart() {
    assert!(CodecSide::Client.is_client());
    assert!(!CodecSide::Client.is_server());
    assert!(CodecSide::Server.is_server());
    assert!(!CodecSide::Server.is_client());
}

#[test]
fn buffer_sizes_are_kept() {
    let b = BufferSize::new(4096, 512);
    assert_eq!(b.read, 4096);
    assert_eq!(b.write, 512);
    let a = BufferSize::all(1024);
    assert_eq!((a.read, a.write), (1024, 1024));
    let d = BufferSize::default();
    assert_eq!((d.read, d.write), (4096, 4096));
}
