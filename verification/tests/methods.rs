use rvk::methods::{method_name, qualify};

#[test]
fn a_method_is_named_after_its_category() {
    assert_eq!(qualify("users", "get"), "users.get");
    assert_eq!(qualify("", ""), ".");
    assert_eq!(qualify("appWidgets", "getAppImageUploadServer"), "appWidgets.getAppImageUploadServer");
}

#[test]
fn a_function_name_gives_the_method_in_mixed_case() {
    assert_eq!(
        method_name("appWidgets", "get_app_image_upload_server"),
        "appWidgets.getAppImageUploadServer"
    );
    assert_eq!(method_name("users", "get"), "users.get");
    assert_eq!(method_name("photos", "move_"), "photos.move");
    assert_eq!(method_name("account", "get_profile_info"), "account.getProfileInfo");
}
