//! What a dynamic plugin's library has to offer to be adopted.
use crate::config::DynamicPluginSpec;
use crate::plugin::PLUGIN_API_VERSION;
use crate::text;
use vstd::prelude::*;

verus! {

/// Name of the exported symbol the dynamic loader looks up.
pub const DYN_ENTRY_SYMBOL: &'static str = "aegis_plugin_entry";

/// Name of the exported symbol that frees a registration in the plugin's own
/// allocator.
pub const DYN_FREE_SYMBOL: &'static str = "aegis_plugin_free_registration";

/// Why a library is not adopted.
#[derive(Debug, Clone, PartialEq, Eq)]
pub enum LoadError {
    /// It lacks the entrypoint.
    MissingEntry,
    /// It lacks the function that frees what the entrypoint returns.
    MissingFree,
    /// Its entrypoint panicked.
    EntryPanicked,
    /// Its entrypoint returned nothing.
    NullRegistration,
    /// It was built against another contract version.
    ApiVersion(u32),
    /// It reports another name than it was declared under.
    NameMismatch(String),
}

/// What calling an entrypoint gave.
#[derive(Debug, Clone, Copy, PartialEq, Eq, Structural)]
pub enum EntryCall {
    Panicked,
    Null,
    /// A registration with this contract version.
    Registered(u32),
}

/// Whether an entrypoint may be called: only where what it returns can be freed.
pub fn check_symbols(has_entry: bool, has_free: bool) -> (res: Result<(), LoadError>)
    ensures
        match res {
            Ok(_) => has_entry && has_free,
            Err(e) => if !has_entry {
                e == LoadError::MissingEntry
            } else {
                !has_free && e == LoadError::MissingFree
            },
        },
{
    if !has_entry {
        Err(LoadError::MissingEntry)
    } else if !has_free {
        Err(LoadError::MissingFree)
    } else {
        Ok(())
    }
}

/// Whether a registration is adopted: it exists and is of this contract version.
pub fn check_registration(call: EntryCall) -> (res: Result<(), LoadError>)
    ensures
        match call {
            EntryCall::Panicked => res == Err::<(), LoadError>(LoadError::EntryPanicked),
            EntryCall::Null => res == Err::<(), LoadError>(LoadError::NullRegistration),
            EntryCall::Registered(v) => if v == PLUGIN_API_VERSION {
                res is Ok
            } else {
                res == Err::<(), LoadError>(LoadError::ApiVersion(v))
            },
        },
{
    match call {
        EntryCall::Panicked => Err(LoadError::EntryPanicked),
        EntryCall::Null => Err(LoadError::NullRegistration),
        EntryCall::Registered(v) => {
            if v == PLUGIN_API_VERSION {
                Ok(())
            } else {
                Err(LoadError::ApiVersion(v))
            }
        },
    }
}

/// Whether a loaded plugin is the one that was declared.
pub fn check_name(spec: &DynamicPluginSpec, reported: &str) -> (res: Result<(), LoadError>)
    ensures
        match res {
            Ok(_) => reported@ == spec.name@,
            Err(e) => reported@ != spec.name@ && (e matches LoadError::NameMismatch(name) && name@
                == reported@),
        },
{
    if text::same(reported, spec.name.as_str()) {
        Ok(())
    } else {
        Err(LoadError::NameMismatch(reported.to_owned()))
    }
}

impl LoadError {
    /// What the error says of the library at `path`, as a value.
    pub open spec fn says(self, path: Seq<char>) -> Seq<char> {
        match self {
            LoadError::MissingEntry => "missing `"@ + DYN_ENTRY_SYMBOL@ + "` symbol in "@ + path,
            LoadError::MissingFree => "missing `"@ + DYN_FREE_SYMBOL@ + "` symbol in "@ + path,
            LoadError::EntryPanicked => "dynamic plugin "@ + path
                + " panicked in its entrypoint"@,
            LoadError::NullRegistration => "dynamic plugin "@ + path
                + " returned a null registration"@,
            LoadError::ApiVersion(v) => "dynamic plugin "@ + path + " has API version "@
                + text::decimal(v as nat) + " but host expects "@ + text::decimal(
                PLUGIN_API_VERSION as nat,
            ),
            LoadError::NameMismatch(name) => "dynamic plugin "@ + path + " reports the name "@
                + name@,
        }
    }

    /// What the error says of the library at `path`.
    pub fn message(&self, path: &str) -> (out: String)
        ensures
            out@ == self.says(path@),
    {
        match self {
            LoadError::MissingEntry | LoadError::MissingFree => {
                let mut out: String = "missing `".to_owned();
                match self {
                    LoadError::MissingEntry => text::push_str(&mut out, DYN_ENTRY_SYMBOL),
                    _ => text::push_str(&mut out, DYN_FREE_SYMBOL),
                }
                text::push_str(&mut out, "` symbol in ");
                text::push_str(&mut out, path);
                out
            },
            LoadError::EntryPanicked => {
                let mut out: String = "dynamic plugin ".to_owned();
                text::push_str(&mut out, path);
                text::push_str(&mut out, " panicked in its entrypoint");
                out
            },
            LoadError::NullRegistration => {
                let mut out: String = "dynamic plugin ".to_owned();
                text::push_str(&mut out, path);
                text::push_str(&mut out, " returned a null registration");
                out
            },
            LoadError::ApiVersion(v) => {
                let mut out: String = "dynamic plugin ".to_owned();
                text::push_str(&mut out, path);
                text::push_str(&mut out, " has API version ");
                text::push_decimal(&mut out, *v as u64);
                text::push_str(&mut out, " but host expects ");
                text::push_decimal(&mut out, PLUGIN_API_VERSION as u64);
                out
            },
            LoadError::NameMismatch(name) => {
                let mut out: String = "dynamic plugin ".to_owned();
                text::push_str(&mut out, path);
                text::push_str(&mut out, " reports the name ");
                text::push_str(&mut out, name.as_str());
                out
            },
        }
    }
}

} // verus!
