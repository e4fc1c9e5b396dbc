use debloater::classify::{get_bloatware_info, get_group_from_package, map_risk_to_safety};
use debloater::dataset::{CatalogGroup, Dataset, PackageInfo};
use debloater::inventory::classify;

fn entry(name: &str, app: &str, risk: &str) -> PackageInfo {
    PackageInfo {
        package_name: name.to_string(),
        app_name: app.to_string(),
        description: format!("{} description", app),
        safe_to_remove: true,
        risk_level: risk.to_string(),
        battery_impact: "LOW".to_string(),
        ram_impact: "HIGH".to_string(),
        reversible: true,
        notes: "note".to_string(),
    }
}

#[test]
fn risk_table() {
    assert_eq!(map_risk_to_safety("HIGH"), "unsafe");
    assert_eq!(map_risk_to_safety("MEDIUM"), "caution");
    assert_eq!(map_risk_to_safety("LOW"), "safe");
    assert_eq!(map_risk_to_safety(""), "unknown");
    assert_eq!(map_risk_to_safety("high"), "unknown");
    assert_eq!(map_risk_to_safety("HIGHER"), "unknown");
}

#[test]
fn group_ladder() {
    assert_eq!(get_group_from_package("com.google.android.gms"), "google_core");
    assert_eq!(get_group_from_package("com.google.android.gsf.login"), "google_core");
    assert_eq!(get_group_from_package("com.android.vending"), "google_core");
    assert_eq!(get_group_from_package("com.google.android.apps.maps"), "google_app");
    assert_eq!(get_group_from_package("com.miui.msa.global"), "miui_ads");
    assert_eq!(get_group_from_package("com.miui.analytics"), "miui_ads");
    assert_eq!(get_group_from_package("com.miui.gallery"), "miui_core");
    assert_eq!(get_group_from_package("com.xiaomi.market"), "xiaomi_apps");
    assert_eq!(get_group_from_package("com.facebook.katana"), "third_party");
    assert_eq!(get_group_from_package("com.netflix.mediaclient"), "third_party");
    assert_eq!(get_group_from_package("com.unknown.app"), "other");
    assert_eq!(get_group_from_package("com.android.vending.billing"), "other");
}

#[test]
fn miui_rule_wins_over_xiaomi() {
    let c = get_bloatware_info("com.xiaomi.miui.cloud").unwrap();
    assert_eq!(c.category, "MIUI");
    assert_eq!(c.safety_level, "caution");
    assert_eq!(c.risk_level, "MEDIUM");
    assert!(!c.reversible);
    assert_eq!(c.group, "miui_core");
}

#[test]
fn miui_analytics_by_heuristic() {
    let c = get_bloatware_info("com.miui.analytics").unwrap();
    assert_eq!(c.category, "MIUI");
    assert_eq!(c.safety_level, "caution");
    assert_eq!(c.risk_level, "MEDIUM");
    assert_eq!(c.group, "miui_ads");
}

#[test]
fn xiaomi_and_social_rules() {
    let x = get_bloatware_info("com.xiaomi.market").unwrap();
    assert_eq!(x.category, "Xiaomi");
    assert_eq!(x.safety_level, "safe");
    assert_eq!(x.risk_level, "LOW");
    assert!(x.reversible);
    let f = get_bloatware_info("com.facebook.services").unwrap();
    assert_eq!(f.category, "Social");
    assert_eq!(f.description, "Facebook/Meta bloatware");
    let m = get_bloatware_info("com.meta.app").unwrap();
    assert_eq!(m.category, "Social");
    assert!(get_bloatware_info("com.example.app").is_none());
}

#[test]
fn failed_catalog_gives_empty_dataset() {
    let ds = Dataset::load(None);
    let c = classify(&ds, "com.miui.analytics").unwrap();
    assert_eq!(c.safety_level, "caution");
    assert!(classify(&ds, "com.example.app").is_none());
}

#[test]
fn dataset_hit_overrides_heuristics() {
    let groups = vec![CatalogGroup {
        group: "xiaomi".to_string(),
        vendor: "Xiaomi".to_string(),
        packages: vec![entry("com.miui.analytics", "Analytics", "HIGH")],
    }];
    let ds = Dataset::load(Some(groups));
    let c = classify(&ds, "com.miui.analytics").unwrap();
    assert_eq!(c.category, "Xiaomi");
    assert_eq!(c.safety_level, "unsafe");
    assert_eq!(c.risk_level, "HIGH");
    assert_eq!(c.description, "Analytics description");
    assert_eq!(c.group, "miui_ads");
    assert_eq!(c.ram_impact, "HIGH");
}

#[test]
fn later_catalog_entry_wins() {
    let groups = vec![
        CatalogGroup {
            group: "a".to_string(),
            vendor: "First".to_string(),
            packages: vec![entry("com.example.app", "One", "LOW")],
        },
        CatalogGroup {
            group: "b".to_string(),
            vendor: "Second".to_string(),
            packages: vec![entry("com.example.app", "Two", "MEDIUM")],
        },
    ];
    let ds = Dataset::load(Some(groups));
    let c = classify(&ds, "com.example.app").unwrap();
    assert_eq!(c.category, "Second");
    assert_eq!(c.safety_level, "caution");
    assert!(classify(&ds, "com.example").is_none());
}
