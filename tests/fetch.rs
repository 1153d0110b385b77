use rustygetdata::decode::{ByteOrder, Sample};
use rustygetdata::dirfile::{total_samples, Dirfile, Field};
use rustygetdata::element::{
    ElementType, GD_FLOAT32, GD_FLOAT64, GD_INT16, GD_INT32, GD_INT64, GD_INT8, GD_STRING,
    GD_UINT16, GD_UINT32, GD_UINT64, GD_UINT8,
};

fn numeric(name: &str, tag: u32, spf: u32, raw: Vec<u8>) -> Field {
    Field { name: name.to_string(), tag, spf, raw, cells: Vec::new() }
}

fn text(name: &str, spf: u32, cells: Vec<&str>) -> Field {
    Field {
        name: name.to_string(),
        tag: GD_STRING,
        spf,
        raw: Vec::new(),
        cells: cells.into_iter().map(|c| c.as_bytes().to_vec()).collect(),
    }
}

fn as_f64(s: &Sample) -> f64 {
    match s {
        Sample::Unsigned(x) => *x as f64,
        Sample::Signed(x) => *x as f64,
        Sample::Float32Bits(b) => f32::from_bits(*b) as f64,
        Sample::Float64Bits(b) => f64::from_bits(*b),
        Sample::Text(t) => std::str::from_utf8(t)
            .ok()
            .and_then(|s| s.parse::<f64>().ok())
            .unwrap_or(0.0),
    }
}

fn times() -> Vec<f64> {
    (0..20).map(|i| i as f64 * 0.5 + 1.25).collect()
}

/// Ten frames, two samples per frame: "time" (64-bit float) and "flag" (8-bit).
fn test_dirfile() -> Dirfile {
    let mut raw = Vec::new();
    for t in times() {
        raw.extend_from_slice(&t.to_le_bytes());
    }
    let flags: Vec<u8> = (0..20).map(|i| if i % 2 == 0 { 1 } else { 0 }).collect();
    Dirfile::new(
        10,
        ByteOrder::Little,
        vec![numeric("time", GD_FLOAT64, 2, raw), numeric("flag", GD_UINT8, 2, flags)],
    )
}

#[test]
fn test_nfields() {
    let dirfile = test_dirfile();
    let num_fields = dirfile.nfields();
    assert!(num_fields > 0, "Number of fields should be greater than zero");
}

#[test]
fn test_nframes() {
    let dirfile = test_dirfile();
    let num_frames = dirfile.nframes();
    assert!(num_frames > 0, "Number of frames should be greater than zero");
}

#[test]
fn test_spf() {
    let dirfile = test_dirfile();
    let samples_per_frame = dirfile.spf("time");
    assert!(samples_per_frame > 0, "Samples per frame should be greater than zero");
}

#[test]
fn test_field_type() {
    let dirfile = test_dirfile();
    let field_type = dirfile.field_type("time");
    assert!(field_type > 0, "Field type should be greater than zero");
}

#[test]
fn test_get_data() {
    let dirfile = test_dirfile();
    let data: Vec<f64> = dirfile.get_data("time").iter().map(as_f64).collect();
    assert!(!data.is_empty(), "Data should not be empty");
    assert!(data.iter().all(|&value| value.is_finite()), "All data values should be finite");
}

#[test]
fn test_get_data_unknown_field() {
    let dirfile = test_dirfile();
    let data = dirfile.get_data("fake_field");
    assert!(data.is_empty(), "Data for an unknown field should be empty");
}

#[test]
fn float64_field_returns_stored_doubles_in_order() {
    let dirfile = test_dirfile();
    let data = dirfile.get_data("time");
    assert_eq!(data.len(), 20);
    for (s, t) in data.iter().zip(times()) {
        assert_eq!(*s, Sample::Float64Bits(t.to_bits()));
    }
}

#[test]
fn uint8_flags_widen_to_doubles() {
    let dirfile = test_dirfile();
    let data: Vec<f64> = dirfile.get_data("flag").iter().map(as_f64).collect();
    let expected: Vec<f64> = (0..20).map(|i| if i % 2 == 0 { 1.0 } else { 0.0 }).collect();
    assert_eq!(data, expected);
}

#[test]
fn nonexistent_field_is_empty_and_reports_zero_geometry() {
    let dirfile = test_dirfile();
    assert!(dirfile.get_data("nonexistent_field").is_empty());
    assert_eq!(dirfile.spf("nonexistent_field"), 0);
    assert_eq!(dirfile.field_type("nonexistent_field"), 0);
}

#[test]
fn length_is_frames_times_samples_per_frame_for_every_type() {
    let tags = [
        GD_UINT8, GD_INT8, GD_UINT16, GD_INT16, GD_UINT32, GD_INT32, GD_UINT64, GD_INT64,
        GD_FLOAT32, GD_FLOAT64, GD_STRING,
    ];
    for tag in tags {
        let d = Dirfile::new(3, ByteOrder::Little, vec![numeric("f", tag, 4, vec![7u8; 5])]);
        assert_eq!(d.get_data("f").len(), 12, "tag {}", tag);
    }
}

#[test]
fn signed_and_unsigned_integers_are_exact() {
    let raw16: Vec<u8> = vec![0xff, 0xff, 0x00, 0x80, 0x34, 0x12];
    let d = Dirfile::new(
        3,
        ByteOrder::Little,
        vec![
            numeric("u", GD_UINT16, 1, raw16.clone()),
            numeric("s", GD_INT16, 1, raw16),
            numeric("b", GD_INT8, 2, vec![0x80, 0x7f, 0xff, 0x00, 0x01, 0xfe]),
            numeric("w", GD_INT32, 1, vec![0xff, 0xff, 0xff, 0xff, 0, 0, 0, 0x80, 1, 0, 0, 0]),
            numeric("x", GD_UINT32, 1, vec![0xff, 0xff, 0xff, 0xff, 0, 0, 0, 0x80, 1, 0, 0, 0]),
        ],
    );
    assert_eq!(
        d.get_data("u"),
        vec![Sample::Unsigned(65535), Sample::Unsigned(32768), Sample::Unsigned(0x1234)]
    );
    assert_eq!(
        d.get_data("s"),
        vec![Sample::Signed(-1), Sample::Signed(-32768), Sample::Signed(0x1234)]
    );
    let b: Vec<f64> = d.get_data("b").iter().map(as_f64).collect();
    assert_eq!(b, vec![-128.0, 127.0, -1.0, 0.0, 1.0, -2.0]);
    assert_eq!(
        d.get_data("w"),
        vec![Sample::Signed(-1), Sample::Signed(i32::MIN as i64), Sample::Signed(1)]
    );
    assert_eq!(
        d.get_data("x"),
        vec![Sample::Unsigned(u32::MAX as u64), Sample::Unsigned(0x8000_0000), Sample::Unsigned(1)]
    );
}

#[test]
fn sixty_four_bit_integers_keep_their_value() {
    let mut raw = Vec::new();
    raw.extend_from_slice(&u64::MAX.to_le_bytes());
    raw.extend_from_slice(&(1u64 << 53).to_le_bytes());
    let d = Dirfile::new(
        2,
        ByteOrder::Little,
        vec![numeric("u", GD_UINT64, 1, raw.clone()), numeric("s", GD_INT64, 1, raw)],
    );
    assert_eq!(d.get_data("u"), vec![Sample::Unsigned(u64::MAX), Sample::Unsigned(1 << 53)]);
    assert_eq!(d.get_data("s"), vec![Sample::Signed(-1), Sample::Signed(1 << 53)]);
    assert_eq!(as_f64(&d.get_data("s")[1]), 9007199254740992.0);
}

#[test]
fn float32_widens_to_double() {
    let mut raw = Vec::new();
    raw.extend_from_slice(&1.5f32.to_le_bytes());
    raw.extend_from_slice(&(-0.25f32).to_le_bytes());
    let d = Dirfile::new(1, ByteOrder::Little, vec![numeric("f", GD_FLOAT32, 2, raw)]);
    let data: Vec<f64> = d.get_data("f").iter().map(as_f64).collect();
    assert_eq!(data, vec![1.5, -0.25]);
}

#[test]
fn big_endian_storage_is_decoded() {
    let d = Dirfile::new(
        2,
        ByteOrder::Big,
        vec![numeric("v", GD_INT16, 1, vec![0x12, 0x34, 0xff, 0xfe])],
    );
    assert_eq!(d.get_data("v"), vec![Sample::Signed(0x1234), Sample::Signed(-2)]);
}

#[test]
fn unknown_tag_gives_empty_vector() {
    let d = Dirfile::new(4, ByteOrder::Little, vec![numeric("c", 0x108, 1, vec![0u8; 64])]);
    assert!(d.get_data("c").is_empty());
    assert_eq!(ElementType::from_tag(0x108), None);
    assert_eq!(ElementType::from_tag(0), None);
}

#[test]
fn negative_frame_count_gives_empty_vector() {
    let d = Dirfile::new(-1, ByteOrder::Little, vec![numeric("f", GD_UINT8, 1, vec![1, 2])]);
    assert_eq!(d.nframes(), -1);
    assert!(d.get_data("f").is_empty());
}

#[test]
fn missing_stored_bytes_read_as_zero() {
    let d = Dirfile::new(2, ByteOrder::Little, vec![numeric("f", GD_UINT16, 2, vec![5, 0, 6])]);
    assert_eq!(
        d.get_data("f"),
        vec![Sample::Unsigned(5), Sample::Unsigned(6), Sample::Unsigned(0), Sample::Unsigned(0)]
    );
}

#[test]
fn zero_frames_give_empty_vector() {
    let d = Dirfile::new(0, ByteOrder::Little, vec![numeric("f", GD_UINT8, 3, vec![1, 2, 3])]);
    assert!(d.get_data("f").is_empty());
}

#[test]
fn text_cells_parse_or_default_to_zero() {
    let d = Dirfile::new(2, ByteOrder::Little, vec![text("t", 2, vec!["3.25", "abc", "-1e3\0junk"])]);
    let data = d.get_data("t");
    assert_eq!(data[2], Sample::Text(b"-1e3".to_vec()));
    assert_eq!(data[3], Sample::Text(Vec::new()));
    let values: Vec<f64> = data.iter().map(as_f64).collect();
    assert_eq!(values, vec![3.25, 0.0, -1000.0, 0.0]);
}

#[test]
fn repeated_fetch_is_identical() {
    let d = test_dirfile();
    assert_eq!(d.get_data("time"), d.get_data("time"));
    assert_eq!(d.get_data("flag"), d.get_data("flag"));
}

#[test]
fn first_field_of_a_name_is_used() {
    let d = Dirfile::new(
        1,
        ByteOrder::Little,
        vec![numeric("a", GD_UINT8, 1, vec![9]), numeric("a", GD_INT8, 2, vec![0xff, 1])],
    );
    assert_eq!(d.nfields(), 2);
    assert_eq!(d.spf("a"), 1);
    assert_eq!(d.field_type("a"), GD_UINT8);
    assert_eq!(d.get_data("a"), vec![Sample::Unsigned(9)]);
}

#[test]
fn geometry_overflow_is_refused() {
    assert_eq!(total_samples(10, 2, ElementType::Float64), Some(20));
    assert_eq!(total_samples(-3, 2, ElementType::Uint8), None);
    assert_eq!(total_samples(i64::MAX, u32::MAX, ElementType::Uint8), None);
}

#[test]
fn element_widths_and_signs() {
    assert_eq!(ElementType::from_tag(GD_INT32), Some(ElementType::Int32));
    assert_eq!(ElementType::Int32.width(), 4);
    assert!(ElementType::Int32.is_signed());
    assert_eq!(ElementType::Uint64.width(), 8);
    assert!(!ElementType::Uint64.is_signed());
    assert_eq!(ElementType::Text.width(), 0);
}
