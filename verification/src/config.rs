//! JavaServiceRuntime configuration and validation of user-supplied JVM
//! parameters.
//!
//! A user may pass additional parameters to the JVM, but a few of them are
//! set by the EJB runtime internally and must not be overridden; those are
//! rejected with [`ForbiddenParameterError`].

use vstd::prelude::*;
use vstd::string::StrSliceExecFns;
use vstd::string::StringExecFns;

verus! {

broadcast use vstd::string::group_string_axioms;

/// JavaServiceRuntime configuration.
#[derive(Debug, Clone)]
pub struct Config {
    /// JVM configuration.
    pub jvm_config: JvmConfig,
    /// Java service configuration.
    pub service_config: ServiceConfig,
}

/// JVM configuration.
#[derive(Debug, Clone)]
pub struct JvmConfig {
    /// Additional parameters for JVM.
    ///
    /// Passed directly to JVM while initializing EJB runtime.
    /// Parameters must not have dash at the beginning.
    /// Some parameters are forbidden for setting up by user.
    pub user_parameters: Vec<String>,
    /// Java service classpath. Must include all its dependencies.
    ///
    /// Includes java_bindings internal dependencies as well as user service
    /// dependencies.
    pub class_path: String,
    /// Path to java-bindings shared library.
    pub lib_path: String,
    /// Path to `log4j` configuration file.
    pub log_config_path: String,
}

/// Java service configuration.
#[derive(Debug, Clone)]
pub struct ServiceConfig {
    /// Fully qualified service module name.
    ///
    /// Must be subclass of `AbstractModule` and contain no-arguments
    /// constructor.
    pub module_name: String,
    /// A port of the HTTP server for Java services. Must be distinct from
    /// the ports used by Exonum.
    pub port: i32,
}

/// Error returned while validating user-specified additional parameters for
/// JVM. Trying to specify a parameter that is set by EJB internally.
#[derive(Debug, PartialEq)]
pub struct ForbiddenParameterError(String);

impl View for ForbiddenParameterError {
    type V = Seq<char>;

    closed spec fn view(&self) -> Seq<char> {
        self.0@
    }
}

impl ForbiddenParameterError {
    /// Diagnostic text naming the refused JVM parameter.
    pub fn message(&self) -> (r: String)
        ensures
            r@ == "Trying to specify JVM parameter ["@ + self@
                + "] that is set by EJB internally. Use EJB parameters instead."@,
    {
        let mut out = String::from_str("Trying to specify JVM parameter [");
        out.append(self.0.as_str());
        out.append("] that is set by EJB internally. Use EJB parameters instead.");
        out
    }
}

/// `p` is a prefix of `s`.
pub open spec fn seq_starts_with(s: Seq<char>, p: Seq<char>) -> bool {
    p.len() <= s.len() && (forall|i: int| 0 <= i < p.len() ==> s[i] == p[i])
}

/// The parameter sets something the EJB runtime configures internally:
/// the class path, the native library path, or the log4j configuration.
pub open spec fn is_forbidden(s: Seq<char>) -> bool {
    ||| seq_starts_with(s, "Djava.class.path"@)
    ||| seq_starts_with(s, "Djava.library.path"@)
    ||| seq_starts_with(s, "Dlog4j.configurationFile"@)
}

/// `prefix` is a prefix of `s`, decided character by character.
fn starts_with_str(s: &str, prefix: &str) -> (r: bool)
    ensures
        r == seq_starts_with(s@, prefix@),
{
    let n: usize = prefix.unicode_len();
    let m: usize = s.unicode_len();
    if n > m {
        return false;
    }
    let mut i: usize = 0;
    while i < n
        invariant
            n == prefix@.len(),
            m == s@.len(),
            n <= m,
            i <= n,
            forall|j: int| 0 <= j < i ==> s@[j] == prefix@[j],
        decreases n - i,
    {
        if s.get_char(i) != prefix.get_char(i) {
            return false;
        }
        i += 1;
    }
    true
}

/// Checks if parameter is not in list of forbidden parameters.
pub fn check_not_forbidden(user_parameter: &str) -> (r: Result<(), ForbiddenParameterError>)
    ensures
        r is Ok <==> !is_forbidden(user_parameter@),
        r matches Err(e) ==> e@ == user_parameter@,
{
    if starts_with_str(user_parameter, "Djava.class.path")
        || starts_with_str(user_parameter, "Djava.library.path")
        || starts_with_str(user_parameter, "Dlog4j.configurationFile") {
        Err(ForbiddenParameterError(user_parameter.to_owned()))
    } else {
        Ok(())
    }
}

/// Checks if parameter is not in list of forbidden parameters and adds a
/// dash at the beginning.
pub fn validate_and_convert(user_parameter: &str) -> (r: Result<
    String,
    ForbiddenParameterError,
>)
    ensures
        r is Ok <==> !is_forbidden(user_parameter@),
        r matches Ok(s) ==> s@ == seq!['-'] + user_parameter@,
        r matches Err(e) ==> e@ == user_parameter@,
{
    match check_not_forbidden(user_parameter) {
        Err(e) => Err(e),
        Ok(()) => {
            let converted = String::from_str("-").concat(user_parameter);
            proof {
                reveal_strlit("-");
                assert(converted@ =~= seq!['-'] + user_parameter@);
            }
            Ok(converted)
        },
    }
}

} // verus!
