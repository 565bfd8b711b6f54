use cribo::dirs::{push_path, user_cribo_config_dir, xdg_config_candidates};
use cribo::paths::components;
use cribo::util::module_name_from_relative;

fn s(x: &str) -> String {
    x.to_string()
}

#[test]
fn xdg_candidates() {
    assert_eq!(xdg_config_candidates(None), vec![s("/etc/xdg/cribo/cribo.toml")]);
    assert_eq!(xdg_config_candidates(Some("")), vec![s("/etc/xdg/cribo/cribo.toml")]);
    assert_eq!(xdg_config_candidates(Some(":")), Vec::<String>::new());
    assert_eq!(
        xdg_config_candidates(Some("/a:/b/::/c")),
        vec![s("/a/cribo/cribo.toml"), s("/b/cribo/cribo.toml")]
    );
}

#[test]
fn pushing_path_components() {
    assert_eq!(push_path(s("/home/u/.config"), "cribo"), s("/home/u/.config/cribo"));
    assert_eq!(push_path(s("/"), "cribo"), s("/cribo"));
    assert_eq!(push_path(s(""), "cribo"), s("cribo"));
}

#[test]
fn user_config_directory_ends_with_cribo() {
    if let Some(p) = user_cribo_config_dir() {
        assert!(p.ends_with("cribo"));
    }
}

#[test]
fn path_components_and_module_names() {
    assert_eq!(components("/a//b/./c/"), vec![s("/"), s("a"), s("b"), s("c")]);
    assert_eq!(components("./x"), vec![s("."), s("x")]);
    assert_eq!(module_name_from_relative(&vec![s("pkg"), s("mod.py")]), Some(s("pkg.mod")));
    assert_eq!(module_name_from_relative(&vec![s("pkg"), s("__init__.py")]), Some(s("pkg")));
    assert_eq!(module_name_from_relative(&vec![s("__init__.py")]), None);
    assert_eq!(module_name_from_relative(&vec![]), None);
}

#[test]
fn cribo_directory_inside_a_configuration_directory() {
    assert_eq!(cribo::dirs::cribo_config_dir_in(Some("/home/a/.config".to_string())), Some("/home/a/.config/cribo".to_string()));
    assert_eq!(cribo::dirs::cribo_config_dir_in(Some("/home/a/.config/".to_string())), Some("/home/a/.config/cribo".to_string()));
    assert_eq!(cribo::dirs::cribo_config_dir_in(None), None);
}
