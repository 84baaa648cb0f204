//! Section-level model of the INI files the registry persists.
//!
//! An INI file is modelled as a list of sections in file order, each a
//! (possibly absent) name plus its key/value pairs in order. The registry
//! logic works entirely on this model; turning INI text into sections is
//! delegated to the `ini` crate behind a trusted wrapper.

use vstd::prelude::*;

verus! {

/// One section of an INI file: `name` is `None` for the general (headerless)
/// section, and the properties keep their order from the file.
#[derive(Debug, Clone, PartialEq, Eq)]
pub struct IniSection {
    pub name: Option<String>,
    pub props: Vec<(String, String)>,
}

pub ghost struct IniSectionV {
    pub name: Option<Seq<char>>,
    pub props: Seq<(Seq<char>, Seq<char>)>,
}

impl View for IniSection {
    type V = IniSectionV;

    open spec fn view(&self) -> IniSectionV {
        IniSectionV { name: self.name.deep_view(), props: self.props.deep_view() }
    }
}

impl DeepView for IniSection {
    type V = IniSectionV;

    open spec fn deep_view(&self) -> IniSectionV {
        self.view()
    }
}

/// Whether the `ini` crate accepts this text.
pub uninterp spec fn ini_parse_ok(text: Seq<char>) -> bool;

/// The section list the `ini` crate produces for this text.
pub uninterp spec fn ini_sections_of(text: Seq<char>) -> Seq<IniSectionV>;

/// Relies on `ini::Ini::load_from_str` for the INI grammar; the body only
/// copies the parsed sections, in order, into the crate's section model.
#[verifier::external_body]
pub(crate) fn parse_ini_str(text: &str) -> (r: Result<Vec<IniSection>, String>)
    ensures
        match r {
            Ok(sections) => ini_parse_ok(text@) && sections.deep_view() == ini_sections_of(text@),
            Err(_) => !ini_parse_ok(text@),
        },
{
    match ini::Ini::load_from_str(text) {
        Ok(parsed) => Ok(
            parsed.iter().map(
                |entry: (Option<&str>, &ini::Properties)| IniSection {
                    name: entry.0.map(|s| s.to_owned()),
                    props: entry.1.iter().map(|kv| (kv.0.to_owned(), kv.1.to_owned())).collect(),
                },
            ).collect(),
        ),
        Err(e) => Err(format!("{}", e)),
    }
}

} // verus!
