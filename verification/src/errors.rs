//! Error kinds shared by the whole library.

use vstd::prelude::*;
use vstd::string::*;

verus! {

/// The ways in which resolution, loading or rendering can fail.
#[derive(Debug)]
pub enum Error {
    /// An archive could not be opened or read; carries the underlying
    /// diagnostic text.
    Group(String),
    /// Zero materials or zero textures remained after a full resolution.
    NothingLoaded,
    /// The engine failed to generate a map; carries its diagnostic text.
    MapGen(String),
    /// The map type could not be inferred from the file name; carries the
    /// file name.
    MapTypeDetectionFailed(String),
    /// No parameter-definitions entry was present; recoverable.
    NoParameterDefs,
    /// A file could not be read; carries the diagnostic text.
    Io(String),
    /// Any other failure, described by its message.
    Msg(String),
}

impl Error {
    /// A human-readable description of the error.
    pub fn message(&self) -> (r: String)
        ensures
            r@ == self.message_spec(),
    {
        match self {
            Error::Group(e) => {
                let mut s = String::new();
                s.append("c4group: ");
                s.append(e.as_str());
                proof {
                    assert(s@ =~= self.message_spec());
                }
                s
            },
            Error::NothingLoaded => {
                let s = String::from_str("texture/material loading failed");
                proof {
                    assert(s@ =~= self.message_spec());
                }
                s
            },
            Error::MapGen(e) => e.clone(),
            Error::MapTypeDetectionFailed(name) => {
                let mut s = String::new();
                s.append("file '");
                s.append(name.as_str());
                s.append("' has neither Landscape.txt nor Map.c file type");
                proof {
                    assert(s@ =~= self.message_spec());
                }
                s
            },
            Error::NoParameterDefs => {
                let s = String::from_str("no ParameterDefs.txt file found");
                proof {
                    assert(s@ =~= self.message_spec());
                }
                s
            },
            Error::Io(e) => e.clone(),
            Error::Msg(e) => e.clone(),
        }
    }

    /// What `message` returns for each kind.
    pub open spec fn message_spec(&self) -> Seq<char> {
        match self {
            Error::Group(e) => "c4group: "@ + e@,
            Error::NothingLoaded => "texture/material loading failed"@,
            Error::MapGen(e) => e@,
            Error::MapTypeDetectionFailed(name) => "file '"@ + name@
                + "' has neither Landscape.txt nor Map.c file type"@,
            Error::NoParameterDefs => "no ParameterDefs.txt file found"@,
            Error::Io(e) => e@,
            Error::Msg(e) => e@,
        }
    }

    /// True of the archive-failure kind.
    pub open spec fn is_group(&self) -> bool {
        self is Group
    }
}

} // verus!
