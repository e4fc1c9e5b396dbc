use vstd::prelude::*;

use crate::text::{chars_of, contains, contains_str, starts_with, starts_with_str};

verus! {

/// Safety metadata attached to a package.
pub struct Classification {
    pub category: String,
    pub description: String,
    pub safety_level: String,
    pub safe_to_remove: bool,
    pub risk_level: String,
    pub battery_impact: String,
    pub ram_impact: String,
    pub reversible: bool,
    pub notes: String,
    pub group: String,
}

pub ghost struct ClassificationView {
    pub category: Seq<char>,
    pub description: Seq<char>,
    pub safety_level: Seq<char>,
    pub safe_to_remove: bool,
    pub risk_level: Seq<char>,
    pub battery_impact: Seq<char>,
    pub ram_impact: Seq<char>,
    pub reversible: bool,
    pub notes: Seq<char>,
    pub group: Seq<char>,
}

impl View for Classification {
    type V = ClassificationView;

    open spec fn view(&self) -> ClassificationView {
        ClassificationView {
            category: self.category@,
            description: self.description@,
            safety_level: self.safety_level@,
            safe_to_remove: self.safe_to_remove,
            risk_level: self.risk_level@,
            battery_impact: self.battery_impact@,
            ram_impact: self.ram_impact@,
            reversible: self.reversible,
            notes: self.notes@,
            group: self.group@,
        }
    }
}

impl Classification {
    pub fn duplicate(&self) -> (r: Classification)
        ensures
            r@ == self@,
    {
        Classification {
            category: self.category.clone(),
            description: self.description.clone(),
            safety_level: self.safety_level.clone(),
            safe_to_remove: self.safe_to_remove,
            risk_level: self.risk_level.clone(),
            battery_impact: self.battery_impact.clone(),
            ram_impact: self.ram_impact.clone(),
            reversible: self.reversible,
            notes: self.notes.clone(),
            group: self.group.clone(),
        }
    }
}

pub open spec fn opt_view(o: Option<Classification>) -> Option<ClassificationView> {
    match o {
        Some(c) => Some(c@),
        None => None,
    }
}

/// The fixed table from risk tier to safety tier.
pub open spec fn safety_of(risk: Seq<char>) -> Seq<char> {
    if risk == "HIGH"@ {
        "unsafe"@
    } else if risk == "MEDIUM"@ {
        "caution"@
    } else if risk == "LOW"@ {
        "safe"@
    } else {
        "unknown"@
    }
}

/// The group tag of a package, by the first rule of the ladder that matches.
pub open spec fn group_of(id: Seq<char>) -> Seq<char> {
    if starts_with(id, "com.google.android.gms"@) || starts_with(id, "com.google.android.gsf"@)
        || id == "com.android.vending"@ {
        "google_core"@
    } else if starts_with(id, "com.google.android"@) {
        "google_app"@
    } else if starts_with(id, "com.miui"@) {
        if contains(id, "analytics"@) || contains(id, "msa"@) {
            "miui_ads"@
        } else {
            "miui_core"@
        }
    } else if starts_with(id, "com.xiaomi"@) {
        "xiaomi_apps"@
    } else if starts_with(id, "com.facebook"@) || starts_with(id, "com.netflix"@) {
        "third_party"@
    } else {
        "other"@
    }
}

/// The MIUI rule tags analytics and ad components apart from the rest.
pub open spec fn miui_tag(id: Seq<char>) -> Seq<char> {
    if contains(id, "analytics"@) || contains(id, "msa"@) {
        "miui_ads"@
    } else {
        "miui_core"@
    }
}

pub open spec fn miui_rule(id: Seq<char>) -> ClassificationView {
    ClassificationView {
        category: "MIUI"@,
        description: "Xiaomi system app"@,
        safety_level: "caution"@,
        safe_to_remove: false,
        risk_level: "MEDIUM"@,
        battery_impact: "MEDIUM"@,
        ram_impact: "MEDIUM"@,
        reversible: false,
        notes: "System app"@,
        group: miui_tag(id),
    }
}

pub open spec fn xiaomi_rule() -> ClassificationView {
    ClassificationView {
        category: "Xiaomi"@,
        description: "Xiaomi app"@,
        safety_level: "safe"@,
        safe_to_remove: true,
        risk_level: "LOW"@,
        battery_impact: "MEDIUM"@,
        ram_impact: "MEDIUM"@,
        reversible: true,
        notes: "Can be removed"@,
        group: "xiaomi_apps"@,
    }
}

pub open spec fn social_rule() -> ClassificationView {
    ClassificationView {
        category: "Social"@,
        description: "Facebook/Meta bloatware"@,
        safety_level: "safe"@,
        safe_to_remove: true,
        risk_level: "LOW"@,
        battery_impact: "HIGH"@,
        ram_impact: "HIGH"@,
        reversible: true,
        notes: "Safe to remove"@,
        group: "third_party"@,
    }
}

/// The heuristic rules, in order; the first that matches decides.
pub open spec fn heuristic(id: Seq<char>) -> Option<ClassificationView> {
    if contains(id, "miui"@) {
        Some(miui_rule(id))
    } else if contains(id, "xiaomi"@) {
        Some(xiaomi_rule())
    } else if contains(id, "facebook"@) || contains(id, "meta"@) {
        Some(social_rule())
    } else {
        None
    }
}

fn text(s: &str) -> (r: String)
    ensures
        r@ == s@,
{
    s.to_owned()
}

/// Whether the characters spell out a literal text.
pub fn equals_str(s: &[char], t: &str) -> (r: bool)
    ensures
        r == (s@ == t@),
{
    let tv = chars_of(t);
    if tv.len() != s.len() {
        return false;
    }
    let b = starts_with_str(s, t);
    assert(s@ =~= s@.subrange(0, s@.len() as int));
    b
}

/// Maps a risk tier to the safety tier shown to the user.
pub fn map_risk_to_safety(risk_level: &str) -> (r: String)
    ensures
        r@ == safety_of(risk_level@),
{
    let v = chars_of(risk_level);
    risk_to_safety(v.as_slice())
}

pub fn risk_to_safety(risk: &[char]) -> (r: String)
    ensures
        r@ == safety_of(risk@),
{
    if equals_str(risk, "HIGH") {
        text("unsafe")
    } else if equals_str(risk, "MEDIUM") {
        text("caution")
    } else if equals_str(risk, "LOW") {
        text("safe")
    } else {
        text("unknown")
    }
}

/// The group tag of a package identifier.
pub fn get_group_from_package(package_name: &str) -> (r: String)
    ensures
        r@ == group_of(package_name@),
{
    let v = chars_of(package_name);
    group_from_chars(v.as_slice())
}

pub fn group_from_chars(id: &[char]) -> (r: String)
    ensures
        r@ == group_of(id@),
{
    if starts_with_str(id, "com.google.android.gms") || starts_with_str(id, "com.google.android.gsf")
        || equals_str(id, "com.android.vending") {
        text("google_core")
    } else if starts_with_str(id, "com.google.android") {
        text("google_app")
    } else if starts_with_str(id, "com.miui") {
        if contains_str(id, "analytics") || contains_str(id, "msa") {
            text("miui_ads")
        } else {
            text("miui_core")
        }
    } else if starts_with_str(id, "com.xiaomi") {
        text("xiaomi_apps")
    } else if starts_with_str(id, "com.facebook") || starts_with_str(id, "com.netflix") {
        text("third_party")
    } else {
        text("other")
    }
}

/// The classification that the heuristic rules give a package absent from the dataset.
pub fn get_bloatware_info(package_name: &str) -> (r: Option<Classification>)
    ensures
        opt_view(r) == heuristic(package_name@),
{
    let v = chars_of(package_name);
    bloatware_from_chars(v.as_slice())
}

pub fn bloatware_from_chars(id: &[char]) -> (r: Option<Classification>)
    ensures
        opt_view(r) == heuristic(id@),
{
    if contains_str(id, "miui") {
        Some(Classification {
            category: text("MIUI"),
            description: text("Xiaomi system app"),
            safety_level: text("caution"),
            safe_to_remove: false,
            risk_level: text("MEDIUM"),
            battery_impact: text("MEDIUM"),
            ram_impact: text("MEDIUM"),
            reversible: false,
            notes: text("System app"),
            group: if contains_str(id, "analytics") || contains_str(id, "msa") {
                text("miui_ads")
            } else {
                text("miui_core")
            },
        })
    } else if contains_str(id, "xiaomi") {
        Some(Classification {
            category: text("Xiaomi"),
            description: text("Xiaomi app"),
            safety_level: text("safe"),
            safe_to_remove: true,
            risk_level: text("LOW"),
            battery_impact: text("MEDIUM"),
            ram_impact: text("MEDIUM"),
            reversible: true,
            notes: text("Can be removed"),
            group: text("xiaomi_apps"),
        })
    } else if contains_str(id, "facebook") || contains_str(id, "meta") {
        Some(Classification {
            category: text("Social"),
            description: text("Facebook/Meta bloatware"),
            safety_level: text("safe"),
            safe_to_remove: true,
            risk_level: text("LOW"),
            battery_impact: text("HIGH"),
            ram_impact: text("HIGH"),
            reversible: true,
            notes: text("Safe to remove"),
            group: text("third_party"),
        })
    } else {
        None
    }
}

} // verus!
