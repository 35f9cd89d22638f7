use amoxide::vars::{VarName, VarNameError};

#[test]
fn var_name_error_messages() {
    assert_eq!(VarName::parse("").unwrap_err().to_string(), "variable name must not be empty");
    assert_eq!(
        VarName::parse("1x").unwrap_err().to_string(),
        "variable name must start with a letter or '_', found '1'"
    );
    assert_eq!(
        VarName::parse("a.b").unwrap_err().to_string(),
        "variable name may only hold letters, digits, '_' and '-', found '.'"
    );
    assert_eq!(VarName::parse("a.b").unwrap_err(), VarNameError::BadChar('.'));
}
