use nws_client::number::parse_usize;
use nws_client::client::{
    clamp_limit, decimal_text, endpoint_url, gridpoints_path, gridpoints_stations_path,
    latest_observation_path, observation_at_path, observations_path, station_path,
};
use nws_client::text::{same_text, trim_text};

#[test]
fn trimming() {
    assert_eq!(trim_text("  a b \t\n"), "a b");
    assert_eq!(trim_text("\u{3000}x\u{a0}"), "x");
    assert_eq!(trim_text("   "), "");
    assert_eq!(trim_text(""), "");
}

#[test]
fn text_equality() {
    assert!(same_text("Parent Directory", "Parent Directory"));
    assert!(!same_text("Parent Directory", "Parent directory"));
    assert!(!same_text("-", "--"));
}

#[test]
fn decimal_rendering() {
    assert_eq!(decimal_text(0), "0");
    assert_eq!(decimal_text(7), "7");
    assert_eq!(decimal_text(10), "10");
    assert_eq!(decimal_text(1203), "1203");
    assert_eq!(decimal_text(usize::MAX), usize::MAX.to_string());
}

#[test]
fn limits() {
    assert_eq!(clamp_limit(0), 1);
    assert_eq!(clamp_limit(1), 1);
    assert_eq!(clamp_limit(42), 42);
    assert_eq!(clamp_limit(500), 500);
    assert_eq!(clamp_limit(501), 500);
}

#[test]
fn endpoint_paths() {
    assert_eq!(gridpoints_path("OUN", 34, 5), "/gridpoints/OUN/34,5");
    assert_eq!(gridpoints_stations_path("OUN", 34, 5), "/gridpoints/OUN/34,5/stations");
    assert_eq!(station_path("KOKC"), "/stations/KOKC");
    assert_eq!(observations_path("KOKC"), "/stations/KOKC/observations");
    assert_eq!(latest_observation_path("KOKC"), "/stations/KOKC/observations/latest");
    assert_eq!(observation_at_path("KOKC", "t"), "/stations/KOKC/observations/t");
    assert_eq!(endpoint_url("/stations"), "https://api.weather.gov/stations");
}

#[test]
fn unsigned_integers() {
    assert_eq!(parse_usize("0"), Some(0));
    assert_eq!(parse_usize("42"), Some(42));
    assert_eq!(parse_usize("+12"), Some(12));
    assert_eq!(parse_usize("007"), Some(7));
    assert_eq!(parse_usize(&usize::MAX.to_string()), Some(usize::MAX));
    for bad in ["", "+", "-1", "1.0", " 1", "12a", "184467440737095516160"] {
        assert_eq!(parse_usize(bad), None);
        assert!(bad.parse::<usize>().is_err());
    }
    let over = format!("{}0", usize::MAX);
    assert_eq!(parse_usize(&over), None);
}
