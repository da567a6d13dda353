use android_meta::manifest::AndroidManifest;
use android_meta::manifest::ManifestError;

fn load(xml: &str) -> AndroidManifest {
    match AndroidManifest::from_bytes(String::from("AndroidManifest.xml"), xml.as_bytes()) {
        Ok(m) => m,
        Err(_) => panic!("expected well-formed XML"),
    }
}

#[test]
fn default_fallbacks() {
    let m = load("<manifest></manifest>");
    assert_eq!(m.package(), "unknown");
    assert_eq!(m.version_code(), "0");
    assert_eq!(m.version_name(), "0.0");
}

#[test]
fn name_from_package() {
    let m = load("<manifest package=\"com.example.myapp\"></manifest>");
    assert_eq!(m.name(), "Myapp");
}

#[test]
fn name_from_missing_package() {
    let m = load("<manifest></manifest>");
    assert_eq!(m.name(), "Unknown");
}

#[test]
fn name_from_single_segment_package() {
    let m = load("<manifest package=\"widgetco\"></manifest>");
    assert_eq!(m.name(), "Widgetco");
}

#[test]
fn name_flattens_mixed_case() {
    let m = load("<manifest package=\"com.example.myApp\"></manifest>");
    assert_eq!(m.name(), "Myapp");
    let n = load("<manifest package=\"com.example.MYAPP\"></manifest>");
    assert_eq!(n.name(), "Myapp");
}

#[test]
fn version_attributes() {
    let m = load(
        "<manifest xmlns:android=\"http://schemas.android.com/apk/res/android\" \
         package=\"com.example.app\" android:versionCode=\"42\" \
         android:versionName=\"1.2.3\"></manifest>",
    );
    assert_eq!(m.package(), "com.example.app");
    assert_eq!(m.version_code(), "42");
    assert_eq!(m.version_name(), "1.2.3");
}

#[test]
fn version_attributes_need_the_namespace() {
    let m = load("<manifest versionCode=\"42\" versionName=\"1.2.3\"></manifest>");
    assert_eq!(m.version_code(), "0");
    assert_eq!(m.version_name(), "0.0");
}

#[test]
fn save_round_trip_preserves_values() {
    let m = load(
        "<manifest xmlns:android=\"http://schemas.android.com/apk/res/android\" \
         package=\"com.example.app\" android:versionCode=\"42\" \
         android:versionName=\"1.2.3\"></manifest>",
    );
    let saved = m.to_xml_bytes();
    let reloaded =
        match AndroidManifest::from_bytes(String::from("AndroidManifest.xml"), &saved) {
            Ok(r) => r,
            Err(_) => panic!("saved manifest did not parse"),
        };
    assert_eq!(reloaded.package(), m.package());
    assert_eq!(reloaded.version_code(), m.version_code());
    assert_eq!(reloaded.version_name(), m.version_name());
}

#[test]
fn malformed_xml_is_rejected() {
    let r = AndroidManifest::from_bytes(String::from("AndroidManifest.xml"), b"not xml <<<");
    assert_eq!(r.err(), Some(ManifestError::MalformedXml));
}

#[test]
fn path_is_kept() {
    let m = load("<manifest></manifest>");
    assert_eq!(m.path(), "AndroidManifest.xml");
}

#[test]
fn describe_shows_the_three_values() {
    let m = load(
        "<manifest xmlns:android=\"http://schemas.android.com/apk/res/android\" \
         package=\"com.example.app\" android:versionCode=\"42\" \
         android:versionName=\"1.2.3\"></manifest>",
    );
    assert_eq!(
        m.describe(),
        "AndroidManifest { package: com.example.app, version_code: 42, version_name: 1.2.3 }"
    );
}
