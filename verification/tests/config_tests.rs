use java_bindings::config::validate_and_convert;

#[test]
fn not_forbidden_debug() {
    let validation_result = validate_and_convert("Xdebug");
    assert_eq!(validation_result, Ok("-Xdebug".to_string()));
}

#[test]
fn not_forbidden_user_parameter() {
    let validation_result = validate_and_convert("Duser.parameter=Djava.library.path");
    assert_eq!(
        validation_result,
        Ok("-Duser.parameter=Djava.library.path".to_string())
    );
}

#[test]
#[should_panic(expected = "Trying to specify JVM parameter")]
fn library_path() {
    match validate_and_convert("Djava.library.path=.") {
        Ok(_) => (),
        Err(e) => panic!("{}", e.message()),
    }
}

#[test]
#[should_panic(expected = "Trying to specify JVM parameter")]
fn class_path() {
    match validate_and_convert("Djava.class.path=target") {
        Ok(_) => (),
        Err(e) => panic!("{}", e.message()),
    }
}

#[test]
#[should_panic(expected = "Trying to specify JVM parameter")]
fn log_config() {
    match validate_and_convert("Dlog4j.configurationFile=logfile") {
        Ok(_) => (),
        Err(e) => panic!("{}", e.message()),
    }
}

#[test]
fn forbidden_message_text() {
    let e = validate_and_convert("Djava.library.path=.").unwrap_err();
    assert_eq!(
        e.message(),
        "Trying to specify JVM parameter [Djava.library.path=.] that is set by EJB internally. \
         Use EJB parameters instead."
    );
}

#[test]
fn empty_parameter_is_allowed() {
    assert_eq!(validate_and_convert(""), Ok("-".to_string()));
}

#[test]
fn bare_forbidden_prefix_is_rejected() {
    assert!(validate_and_convert("Djava.class.path").is_err());
    assert!(validate_and_convert("Djava.library.path").is_err());
    assert!(validate_and_convert("Dlog4j.configurationFile").is_err());
}

#[test]
fn proper_prefix_of_forbidden_is_allowed() {
    assert_eq!(
        validate_and_convert("Djava.class"),
        Ok("-Djava.class".to_string())
    );
    assert_eq!(
        validate_and_convert("Dlog4j.configuration=x"),
        Ok("-Dlog4j.configuration=x".to_string())
    );
}
