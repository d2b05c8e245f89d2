use deepmath::data_retrieve::download::init_download_dir;
use deepmath::data_retrieve::paths::join;
use deepmath::model::utils::{model_location, model_present};

#[test]
fn join_puts_one_separator_between() {
    assert_eq!(join("/tmp", "deepmath_data"), "/tmp/deepmath_data");
}

#[test]
fn join_adds_no_second_separator() {
    assert_eq!(join("/tmp/", "deepmath_data"), "/tmp/deepmath_data");
    assert_eq!(join("/", "x"), "/x");
}

#[test]
fn join_with_empty_base_is_the_name() {
    assert_eq!(join("", "deepmath_data"), "deepmath_data");
}

#[test]
fn join_with_empty_name_ends_in_a_separator() {
    assert_eq!(join("/tmp", ""), "/tmp/");
}

#[test]
fn join_counts_characters_not_bytes() {
    assert_eq!(join("/données", "fichier"), "/données/fichier");
    assert_eq!(join("/données/", "fichier"), "/données/fichier");
}

#[test]
fn download_dir_is_below_the_scratch_directory() {
    assert_eq!(init_download_dir("/tmp"), "/tmp/deepmath_data");
    assert_eq!(init_download_dir("/var/tmp/"), "/var/tmp/deepmath_data");
}

#[test]
fn model_location_is_the_model_file() {
    assert_eq!(model_location("/home/user"), "/home/user/deepmath_model/model.dat");
    assert_eq!(model_location("/home/user/"), "/home/user/deepmath_model/model.dat");
}

#[test]
fn model_is_present_only_when_listed() {
    assert!(!model_present(&None));
    assert!(!model_present(&Some(vec![])));
    assert!(!model_present(&Some(vec!["model.dat.tmp".to_string()])));
    assert!(model_present(&Some(vec!["notes.txt".to_string(), "model.dat".to_string()])));
}
