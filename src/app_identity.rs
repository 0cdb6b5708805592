use vstd::prelude::*;
use vstd::string::*;

use crate::app_version::AppVersion;
use crate::arg::opt_string_view;

verus! {

/// What a program says about itself: name, description, author, licence
/// and version.
#[derive(Debug, Clone)]
pub struct AppIdentity {
    pub name: String,
    pub description: String,
    pub author: Option<String>,
    pub license: Option<String>,
    pub version: AppVersion,
}

/// `s` followed by a line break.
pub open spec fn line(s: Seq<char>) -> Seq<char> {
    s.push('\n')
}

impl AppIdentity {
    pub fn new(name: &str, description: &str, version: AppVersion) -> (r: Self)
        ensures
            r.name@ == name@,
            r.description@ == description@,
            r.author.is_none(),
            r.license.is_none(),
            r.version == version,
    {
        AppIdentity {
            name: String::from_str(name),
            description: String::from_str(description),
            author: None,
            license: None,
            version,
        }
    }

    pub fn author(self, author: &str) -> (r: Self)
        ensures
            opt_string_view(r.author) == Some(author@),
            r.name == self.name,
            r.description == self.description,
            r.license == self.license,
            r.version == self.version,
    {
        AppIdentity { author: Some(String::from_str(author)), ..self }
    }

    pub fn license(self, license: &str) -> (r: Self)
        ensures
            opt_string_view(r.license) == Some(license@),
            r.name == self.name,
            r.description == self.description,
            r.author == self.author,
            r.version == self.version,
    {
        AppIdentity { license: Some(String::from_str(license)), ..self }
    }

    /// The banner: name and version, then the description, author and
    /// licence that are given, one per line.
    pub fn to_text(&self) -> (r: String)
        ensures
            r@ == line(self.name@ + " v"@ + self.version.to_text_spec())
                + (if self.description@.len() > 0 {
                line(self.description@)
            } else {
                Seq::empty()
            }) + (match self.author {
                Some(a) => line("Written by : "@ + a@),
                None => Seq::empty(),
            }) + (match self.license {
                Some(l) => line(l@),
                None => Seq::empty(),
            }),
    {
        let mut out = self.name.clone().concat(" v").concat(self.version.to_text().as_str()).concat("\n");
        if self.description.as_str().unicode_len() > 0 {
            out = out.concat(self.description.as_str()).concat("\n");
        }
        match &self.author {
            Some(a) => {
                out = out.concat("Written by : ").concat(a.as_str()).concat("\n");
            },
            None => {},
        }
        match &self.license {
            Some(l) => {
                out = out.concat(l.as_str()).concat("\n");
            },
            None => {},
        }
        proof {
            reveal_strlit("\n");
        }
        out
    }
}

} // verus!
