use nws_client::radar::{radar_listing_url, RadarType, UnknownRadarType};

#[test]
fn codes_round_trip() {
    let all = RadarType::values();
    assert_eq!(all.len(), 14);
    for t in all {
        assert_eq!(RadarType::from_name(t.as_str()), Ok(t));
        assert_eq!(RadarType::from_name(&t.to_string()), Ok(t));
    }
}

#[test]
fn codes_are_upper_case() {
    assert_eq!(RadarType::BrefRaw.as_str(), "BREF_RAW");
    assert_eq!(RadarType::Hvil.to_string(), "HVIL");
    assert_eq!(RadarType::Cref.as_str(), "CREF");
}

#[test]
fn unknown_code_is_named() {
    assert_eq!(RadarType::from_name("bref"), Err(UnknownRadarType { value: "bref".to_string() }));
    assert_eq!(RadarType::from_name("BREF_"), Err(UnknownRadarType { value: "BREF_".to_string() }));
    assert_eq!(RadarType::from_name(""), Err(UnknownRadarType { value: String::new() }));
}

#[test]
fn listing_url_of_product() {
    assert_eq!(
        radar_listing_url("KTLX", RadarType::Bref),
        "https://mrms.ncep.noaa.gov/data/RIDGEII/L2/KTLX/BREF/"
    );
}
