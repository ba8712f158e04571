use mochi::cli::DiagnosticsPreset;

#[test]
fn presets_start_with_info_and_stay_within_full() {
    let full: Vec<&str> = DiagnosticsPreset::Full.filter_directives().split(',').collect();
    for p in [DiagnosticsPreset::Runtime, DiagnosticsPreset::Session, DiagnosticsPreset::Render, DiagnosticsPreset::Bridge, DiagnosticsPreset::Full] {
        let d = p.filter_directives();
        assert!(d.starts_with("info,"));
        for item in d.split(',') {
            assert!(full.contains(&item), "{item} is not in the full preset");
        }
    }
}
