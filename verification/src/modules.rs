//! The module-loading policy of the script engine: exactly three module
//! urls exist, the package script may import nothing, and dynamic
//! imports are refused.

use crate::driver::JsCode;
use crate::text::str_eq;
use vstd::prelude::*;
use vstd::string::StrSliceExecFns;

verus! {

/// Whether `sub` occurs anywhere inside `s`.
pub open spec fn spec_contains(s: Seq<char>, sub: Seq<char>) -> bool {
    exists|i: int| 0 <= i && i + sub.len() <= s.len() && #[trigger] s.subrange(i, i + sub.len()) == sub
}

/// Decides whether `sub` occurs anywhere inside `s`.
pub fn str_contains(s: &str, sub: &str) -> (r: bool)
    ensures
        r == spec_contains(s@, sub@),
{
    let ns: usize = s.unicode_len();
    let nsub: usize = sub.unicode_len();
    if nsub > ns {
        proof {
            assert(!spec_contains(s@, sub@));
        }
        return false;
    }
    if nsub == 0 {
        proof {
            let zero: int = 0;
            assert(s@.subrange(zero, zero + sub@.len()) =~= sub@);
            assert(spec_contains(s@, sub@));
        }
        return true;
    }
    let mut i: usize = 0;
    while i <= ns - nsub
        invariant
            ns == s@.len(),
            nsub == sub@.len(),
            0 < nsub <= ns,
            0 <= i <= ns - nsub + 1,
            forall|k: int| 0 <= k < i ==> #[trigger] s@.subrange(k, k + sub@.len()) != sub@,
        decreases ns - nsub + 1 - i,
    {
        let window = s.substring_char(i, i + nsub);
        if str_eq(window, sub) {
            proof {
                assert(s@.subrange(i as int, i as int + sub@.len()) == sub@);
            }
            return true;
        }
        i = i + 1;
    }
    proof {
        assert(!spec_contains(s@, sub@));
    }
    false
}

/// Why a module request was refused.
#[derive(Debug)]
pub enum ModuleError {
    /// The package script tried to import something.
    EmbassyImport,
    /// A module named the package script as its referrer during
    /// resolution.
    EmbassyReferrer,
    /// A dynamic import was attempted.
    DynamicImport,
    /// An unknown url was requested; the url is carried.
    NotAllowed(String),
}

/// The message each refusal carries.
pub open spec fn spec_module_error_message(e: ModuleError) -> Seq<char> {
    match e {
        ModuleError::EmbassyImport => "Embassy.js cannot import anything else"@,
        ModuleError::EmbassyReferrer => "Embassy is not allowed to import"@,
        ModuleError::DynamicImport => "Will not import dynamic"@,
        ModuleError::NotAllowed(url) => "Not allowed to import: "@ + url@,
    }
}

impl ModuleError {
    /// Renders the refusal as its message.
    pub fn message(self) -> (r: String)
        ensures
            r@ == spec_module_error_message(self),
    {
        match self {
            ModuleError::EmbassyImport => "Embassy.js cannot import anything else".to_owned(),
            ModuleError::EmbassyReferrer => "Embassy is not allowed to import".to_owned(),
            ModuleError::DynamicImport => "Will not import dynamic".to_owned(),
            ModuleError::NotAllowed(url) => {
                let mut out = "Not allowed to import: ".to_owned();
                out.append(url.as_str());
                out
            },
        }
    }
}

/// What the loader serves for an allowed url: the shim that captures and
/// hides the engine's privileged namespace, the host's loader module, or
/// the package's own script.
#[derive(Debug)]
pub enum ModuleCode {
    /// Serve the hiding shim, whose text is fixed.
    DenoGlobalShim(String),
    /// Serve the host's loader module artifact.
    Loader,
    /// Serve the package's script.
    Package(String),
}

/// The loader of a package's module graph.
#[derive(Debug, Clone)]
pub struct ModsLoader {
    pub code: JsCode,
}

impl ModsLoader {
    /// Resolution policy: the package script may not name anything, so a
    /// referrer mentioning it is refused outright.
    pub fn resolve(referrer: &str) -> (r: Result<(), ModuleError>)
        ensures
            spec_contains(referrer@, "embassy"@) ==> (r matches Err(e) && e is EmbassyImport),
            !spec_contains(referrer@, "embassy"@) ==> r is Ok,
    {
        if str_contains(referrer, "embassy") {
            Err(ModuleError::EmbassyImport)
        } else {
            Ok(())
        }
    }

    /// Loading policy: dynamic imports are refused; the package script
    /// may import nothing; then exactly three urls exist, and anything
    /// else is refused by name.
    pub fn load(&self, specifier: &str, referrer: Option<&str>, is_dyn_import: bool) -> (r: Result<
        ModuleCode,
        ModuleError,
    >)
        ensures
            is_dyn_import ==> (r matches Err(e) && e is DynamicImport),
            !is_dyn_import && (referrer matches Some(f) && f@ == "file:///embassy.js"@) ==> (
            r matches Err(e) && e is EmbassyReferrer),
            !is_dyn_import && !(referrer matches Some(f) && f@ == "file:///embassy.js"@) ==> {
                if specifier@ == "file:///deno_global.js"@ {
                    r matches Ok(c) && (c matches ModuleCode::DenoGlobalShim(code) && code@
                        == "const old_deno = Deno; Deno = null; export default old_deno"@)
                } else if specifier@ == "file:///loadModule.js"@ {
                    r matches Ok(c) && c is Loader
                } else if specifier@ == "file:///embassy.js"@ {
                    r matches Ok(c) && (c matches ModuleCode::Package(code) && code@
                        == self.code.0@)
                } else {
                    r matches Err(e) && (e matches ModuleError::NotAllowed(url) && url@
                        == specifier@)
                }
            },
    {
        if is_dyn_import {
            return Err(ModuleError::DynamicImport);
        }
        let embassy_referrer = match referrer {
            Some(f) => str_eq(f, "file:///embassy.js"),
            None => false,
        };
        if embassy_referrer {
            return Err(ModuleError::EmbassyReferrer);
        }
        if str_eq(specifier, "file:///deno_global.js") {
            Ok(
                ModuleCode::DenoGlobalShim(
                    "const old_deno = Deno; Deno = null; export default old_deno".to_owned(),
                ),
            )
        } else if str_eq(specifier, "file:///loadModule.js") {
            Ok(ModuleCode::Loader)
        } else if str_eq(specifier, "file:///embassy.js") {
            Ok(ModuleCode::Package(self.code.0.clone()))
        } else {
            Err(ModuleError::NotAllowed(specifier.to_owned()))
        }
    }
}

} // verus!
