use bikecase::cli::{CargoBikecase, CargoBikecaseGist, CargoBikecaseGistPush, CargoBikecaseRm, ColorChoice};

#[test]
fn color_is_read_from_any_subcommand() {
    let rm = CargoBikecase::Rm(CargoBikecaseRm {
        manifest_path: None,
        color: ColorChoice::Never,
        dry_run: false,
        spec: "a".to_owned(),
    });
    assert_eq!(rm.color(), ColorChoice::Never);
    let push = CargoBikecase::Gist(CargoBikecaseGist::Push(CargoBikecaseGistPush {
        package: None,
        manifest_path: None,
        color: ColorChoice::Always,
        dry_run: true,
        set_upstream: false,
        private: false,
        description: None,
        config: "c.toml".to_owned(),
    }));
    assert_eq!(push.color(), ColorChoice::Always);
}
