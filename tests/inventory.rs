use debloater::dataset::{CatalogGroup, Dataset, PackageInfo};
use debloater::device::{device_ids, property_value, Device};
use debloater::inventory::{
    build_inventory, disabled_ids, fallback_label, parse_package_line, AppPackage,
};
use debloater::sorting::sort_by_label;

fn chars(s: &str) -> Vec<char> {
    s.chars().collect()
}

fn parsed(line: &str) -> Option<(String, String)> {
    parse_package_line(&chars(line))
        .map(|(p, i)| (p.into_iter().collect(), i.into_iter().collect()))
}

fn bare(name: &str, label: &str) -> AppPackage {
    AppPackage {
        package_name: name.to_string(),
        label: label.to_string(),
        is_system_app: false,
        is_enabled: true,
        info: None,
    }
}

#[test]
fn package_line_shapes() {
    assert_eq!(
        parsed("package:/data/app/x.apk=com.example.x"),
        Some(("/data/app/x.apk".to_string(), "com.example.x".to_string()))
    );
    assert_eq!(
        parsed("package:/data/app/x.apk= com.example.x \r"),
        Some(("/data/app/x.apk".to_string(), "com.example.x".to_string()))
    );
    assert_eq!(parsed("package:/data/app/x.apk"), None);
    assert_eq!(parsed("package:/data/a=b.apk=com.example.x"), None);
    assert_eq!(parsed("pkg:/data/app/x.apk=com.example.x"), None);
    assert_eq!(parsed("package:/data/app/x.apk=   "), None);
    assert_eq!(parsed(""), None);
}

#[test]
fn end_to_end_single_line() {
    let ds = Dataset::load(None);
    let r = build_inventory(&ds, "package:/system/app/Foo.apk=com.miui.analytics", "");
    assert_eq!(r.len(), 1);
    let p = &r[0];
    assert_eq!(p.package_name, "com.miui.analytics");
    assert_eq!(p.label, "analytics");
    assert!(p.is_system_app);
    assert!(p.is_enabled);
    let c = p.info.as_ref().unwrap();
    assert_eq!(c.group, "miui_ads");
    assert_eq!(c.safety_level, "caution");
}

#[test]
fn labels_sort_ignoring_case() {
    let items = vec![bare("a.z", "Zeta"), bare("a.a", "alpha"), bare("a.b", "Beta")];
    let r = sort_by_label(&items);
    let labels: Vec<&str> = r.iter().map(|p| p.label.as_str()).collect();
    assert_eq!(labels, vec!["alpha", "Beta", "Zeta"]);
}

#[test]
fn equal_labels_keep_order() {
    let items = vec![bare("x.one", "Same"), bare("x.two", "same"), bare("x.three", "SAME")];
    let r = sort_by_label(&items);
    let names: Vec<&str> = r.iter().map(|p| p.package_name.as_str()).collect();
    assert_eq!(names, vec!["x.one", "x.two", "x.three"]);
}

#[test]
fn inventory_is_idempotent() {
    let ds = Dataset::load(None);
    let listing = "package:/data/app/b.apk=org.b.Zeta\npackage:/vendor/app/a.apk=org.a.alpha\nnoise\n";
    let disabled = "package:org.a.alpha\n";
    let r1 = build_inventory(&ds, listing, disabled);
    let r2 = build_inventory(&ds, listing, disabled);
    assert_eq!(r1.len(), 2);
    assert_eq!(r1.len(), r2.len());
    for (a, b) in r1.iter().zip(r2.iter()) {
        assert_eq!(a.package_name, b.package_name);
        assert_eq!(a.label, b.label);
        assert_eq!(a.is_enabled, b.is_enabled);
        assert_eq!(a.is_system_app, b.is_system_app);
    }
    assert_eq!(r1[0].label, "alpha");
    assert!(!r1[0].is_enabled);
    assert!(r1[0].is_system_app);
    assert_eq!(r1[1].label, "Zeta");
    assert!(r1[1].is_enabled);
    assert!(!r1[1].is_system_app);
}

#[test]
fn disabled_match_is_exact() {
    let ds = Dataset::load(None);
    let listing = "package:/data/app/p.apk=com.app.pro\r\npackage:/data/app/q.apk=com.app\r\n";
    let r = build_inventory(&ds, listing, "package:com.app.pro\r\n");
    assert_eq!(r.len(), 2);
    assert_eq!(r[0].package_name, "com.app");
    assert!(r[0].is_enabled);
    assert_eq!(r[1].package_name, "com.app.pro");
    assert!(!r[1].is_enabled);
}

#[test]
fn duplicate_identifiers_keep_first() {
    let ds = Dataset::load(None);
    let listing = "package:/data/app/one.apk=com.dup.app\npackage:/system/app/two.apk=com.dup.app\n";
    let r = build_inventory(&ds, listing, "");
    assert_eq!(r.len(), 1);
    assert!(!r[0].is_system_app);
}

#[test]
fn dataset_label_used() {
    let ds = Dataset::load(Some(vec![CatalogGroup {
        group: "g".to_string(),
        vendor: "Google".to_string(),
        packages: vec![PackageInfo {
            package_name: "com.google.android.gms".to_string(),
            app_name: "Play services".to_string(),
            description: "core".to_string(),
            safe_to_remove: false,
            risk_level: "HIGH".to_string(),
            battery_impact: "HIGH".to_string(),
            ram_impact: "HIGH".to_string(),
            reversible: false,
            notes: "keep".to_string(),
        }],
    }]));
    let r = build_inventory(&ds, "package:/product/priv-app/G.apk=com.google.android.gms", "");
    assert_eq!(r[0].label, "Play services");
    let c = r[0].info.as_ref().unwrap();
    assert_eq!(c.group, "google_core");
    assert_eq!(c.category, "Google");
    assert_eq!(c.safety_level, "unsafe");
}

#[test]
fn empty_listing_gives_nothing() {
    let ds = Dataset::load(None);
    assert!(build_inventory(&ds, "", "").is_empty());
    assert!(build_inventory(&ds, "garbage\n\n=\n", "").is_empty());
}

#[test]
fn fallback_label_is_last_segment() {
    assert_eq!(fallback_label(&chars("com.example.notes")), "notes");
    assert_eq!(fallback_label(&chars("single")), "single");
    assert_eq!(fallback_label(&chars("trailing.")), "");
}

#[test]
fn disabled_listing_parse() {
    let ids = disabled_ids("package:com.a\npackage:  com.b \nother\npackage:\n");
    let ids: Vec<String> = ids.into_iter().map(|v| v.into_iter().collect()).collect();
    assert_eq!(ids, vec!["com.a".to_string(), "com.b".to_string()]);
}

#[test]
fn device_listing_parse() {
    let listing = "List of devices attached\nemulator-5554          device product:sdk model:x\n\nR58M offline\nabc device\n";
    let ids = device_ids(listing);
    assert_eq!(ids, vec!["emulator-5554".to_string(), "abc".to_string()]);
    assert!(device_ids("emulator-5554 device\n").is_empty());
    assert!(device_ids("").is_empty());
}

#[test]
fn device_properties_fall_back() {
    let d = Device::from_properties("abc".to_string(), Some(" Pixel 7\n"), None, Some("14\r\n"));
    assert_eq!(d.id, "abc");
    assert_eq!(d.model, "Pixel 7");
    assert_eq!(d.manufacturer, "Unknown");
    assert_eq!(d.android_version, "14");
    assert_eq!(property_value(Some("")), "");
}
