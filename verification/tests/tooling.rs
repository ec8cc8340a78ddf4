use rayhunter::framebuffer::{rgb565_bytes, solid_color_buffer, Dimensions, OrbicFramebuffer};
use rayhunter::gps::{GpsCorrelator, GpsFileFormat};
use rayhunter::input::{parse_event, Event};
use rayhunter::qr::{compose_qr_buffer, render_qr, QR_MARGIN};
use rayhunter::timestamp::Timestamp;
use rayhunter::wifi::{line_value, split_lines, strip_quotes, trim_bytes, wifi_qr_payload};

fn key_event(event_type: u16, value: i32) -> [u8; 16] {
    let mut raw = [0u8; 16];
    raw[8..10].copy_from_slice(&event_type.to_le_bytes());
    raw[12..16].copy_from_slice(&value.to_le_bytes());
    raw
}

#[test]
fn key_events_parse_by_type_and_value() {
    assert_eq!(parse_event(&key_event(1, 1)), Some(Event::KeyDown));
    assert_eq!(parse_event(&key_event(1, 0)), Some(Event::KeyUp));
    assert_eq!(parse_event(&key_event(1, 2)), None);
    assert_eq!(parse_event(&key_event(2, 1)), None);
    assert_eq!(parse_event(&[0u8; 15]), None);
}

#[test]
fn gps_format_names_are_case_insensitive() {
    assert_eq!(GpsFileFormat::from_str("csv"), Some(GpsFileFormat::Csv));
    assert_eq!(GpsFileFormat::from_str("CSV"), Some(GpsFileFormat::Csv));
    assert_eq!(GpsFileFormat::from_str("Json"), Some(GpsFileFormat::Json));
    assert_eq!(GpsFileFormat::from_str("gpx"), Some(GpsFileFormat::Gpx));
    assert_eq!(GpsFileFormat::from_str("bmp"), None);
    assert_eq!(GpsFileFormat::from_str(""), None);
}

#[test]
fn gps_format_metadata() {
    assert_eq!(GpsFileFormat::Csv.content_type(), "text/csv");
    assert_eq!(GpsFileFormat::Json.content_type(), "application/json");
    assert_eq!(GpsFileFormat::Gpx.content_type(), "application/gpx+xml");
    assert_eq!(GpsFileFormat::Csv.file_extension(), "csv");
    assert_eq!(GpsFileFormat::Json.file_extension(), "json");
    assert_eq!(GpsFileFormat::Gpx.file_extension(), "gpx");
}

#[test]
fn gps_correlator_keeps_its_path() {
    let correlator = GpsCorrelator::new("/data/gps");
    assert_eq!(correlator.gps_data_path, "/data/gps");
}

#[test]
fn rgb565_encodes_the_primaries() {
    assert_eq!(rgb565_bytes(&vec![(255, 255, 255)]), vec![0xff, 0xff]);
    assert_eq!(rgb565_bytes(&vec![(0, 0, 0)]), vec![0x00, 0x00]);
    assert_eq!(rgb565_bytes(&vec![(255, 0, 0)]), vec![0x00, 0xf8]);
    assert_eq!(rgb565_bytes(&vec![(0, 255, 0)]), vec![0xe0, 0x07]);
    assert_eq!(rgb565_bytes(&vec![(0, 0, 255)]), vec![0x1f, 0x00]);
    assert_eq!(rgb565_bytes(&vec![(255, 0, 0), (0, 0, 255)]), vec![0x00, 0xf8, 0x1f, 0x00]);
}

#[test]
fn framebuffer_dimensions_and_clear_buffer() {
    let fb = OrbicFramebuffer::new();
    let dims = fb.dimensions();
    assert_eq!(dims.width, 128);
    assert_eq!(dims.height, 128);
    let buffer = solid_color_buffer(dims, (0, 0, 0));
    assert_eq!(buffer.len(), 128 * 128);
    assert!(buffer.iter().all(|p| *p == (0, 0, 0)));
}

#[test]
fn config_lines_split_trim_and_unquote() {
    let lines = split_lines(b"ssid=home\nwpa_passphrase=secret\n");
    assert_eq!(lines, vec![b"ssid=home".to_vec(), b"wpa_passphrase=secret".to_vec(), Vec::new()]);
    assert_eq!(trim_bytes(b"  \tvalue\r "), b"value".to_vec());
    assert_eq!(line_value(b"ssid=home", b"ssid="), Some(b"home".to_vec()));
    assert_eq!(line_value(b"bssid=x", b"ssid="), None);
    assert_eq!(line_value(b"ss", b"ssid="), None);
    assert_eq!(strip_quotes(b"\"pw\""), b"pw".to_vec());
    assert_eq!(strip_quotes(b"pw"), b"pw".to_vec());
    assert_eq!(strip_quotes(b"\""), b"\"".to_vec());
}

#[test]
fn wifi_qr_payload_uses_the_standard_shape() {
    assert_eq!(wifi_qr_payload("home", "secret", "WPA"), "WIFI:S:home;T:WPA;P:secret;;");
}

#[test]
fn qr_rendering_yields_a_full_module_image() {
    let img = render_qr("WIFI:S:home;T:WPA;P:secret;;", 112).expect("payload fits a QR code");
    assert!(img.width > 0 && img.height > 0);
    assert_eq!(img.pixels.len(), (img.width * img.height) as usize);
    // The renderer was asked for roughly 112 pixels a side.
    assert!(img.width >= 112);
    // A QR code holds both dark and light modules.
    assert!(img.pixels.iter().any(|p| *p == 0));
    assert!(img.pixels.iter().any(|p| *p == 255));
}

#[test]
fn qr_panel_composition_centers_the_image_with_a_white_border() {
    let img = render_qr("WIFI:S:home;T:WPA;P:secret;;", 112).expect("payload fits a QR code");
    let dims = Dimensions { width: 128, height: 128 };
    let buffer = compose_qr_buffer(&img, dims);
    assert_eq!(buffer.len(), 128 * 128);
    // The margin stays white.
    assert_eq!(buffer[0], (255, 255, 255));
    assert_eq!(buffer[127], (255, 255, 255));
    // Inside the margin the buffer mirrors the image's luma.
    let m = QR_MARGIN as usize;
    let first_luma = img.pixels[0];
    assert_eq!(buffer[m * 128 + m], (first_luma, first_luma, first_luma));
}

#[test]
fn baseband_ticks_convert_to_unix_milliseconds() {
    // The GPS epoch itself.
    assert_eq!(
        Timestamp::from_qualcomm_ticks(0),
        Timestamp { epoch_millis: 315964800000, offset_seconds: 0 }
    );
    // Four ticks of 1.25 ms are five milliseconds.
    assert_eq!(Timestamp::from_qualcomm_ticks(4).epoch_millis, 315964800005);
    // A huge tick counter saturates instead of overflowing.
    assert_eq!(Timestamp::from_qualcomm_ticks(u64::MAX).epoch_millis, i64::MAX);
}
