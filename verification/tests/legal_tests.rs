use irontrack::legal::{
    copernicus_attribution, copernicus_attribution_default, COPERNICUS_DISCLAIMER,
    DSM_WARNING_TEXT,
};

#[test]
fn attribution_default_year_is_2021() {
    let attr = copernicus_attribution_default();
    assert!(
        attr.contains("2021"),
        "default attribution must contain year 2021, got: {attr}"
    );
    assert!(!attr.contains("{year}"), "placeholder must be substituted");
}

#[test]
fn attribution_custom_year() {
    let attr = copernicus_attribution(2024);
    assert!(attr.contains("2024"));
    assert!(!attr.contains("{year}"));
    assert!(attr.contains("Copernicus Sentinel data 2024"));
}

#[test]
fn attribution_contains_esa() {
    let attr = copernicus_attribution_default();
    assert!(attr.contains("ESA"));
}

#[test]
fn attribution_exact_text() {
    assert_eq!(
        copernicus_attribution(2023),
        "Contains modified Copernicus Sentinel data 2023, processed by ESA."
    );
}

#[test]
fn disclaimer_contains_license_url() {
    assert!(COPERNICUS_DISCLAIMER.contains("dataspace.copernicus.eu"));
}

#[test]
fn dsm_warning_text_contains_safety() {
    assert!(DSM_WARNING_TEXT.contains("SAFETY WARNING"));
    assert!(DSM_WARNING_TEXT.contains("UNDERESTIMATED"));
}
