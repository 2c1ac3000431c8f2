use schema_jenerator::output::default_output_name;

#[test]
fn default_name_appends_to_the_stem() {
    assert_eq!(default_output_name("input"), "input.schema.json");
    assert_eq!(default_output_name("user_profile"), "user_profile.schema.json");
    assert_eq!(default_output_name("archive.tar"), "archive.tar.schema.json");
    assert_eq!(default_output_name(""), ".schema.json");
}
