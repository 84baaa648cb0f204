//! The profile registry: entries, their stable derived ids, and the
//! section-level parse/serialize logic for the primary profile list and its
//! satellite stores.

use vstd::prelude::*;
use vstd::slice::slice_index_get;
use vstd::utf8::encode_utf8;
use crate::inifile::{IniSection, IniSectionV};
use crate::strutil::{digit_char, dec_str_of, starts_with_of, str_eq, starts_with, usize_to_string};

verus! {

broadcast use vstd::string::group_string_axioms;

/// Per-profile option settings: keys mapped to JSON values kept as their
/// serialized text, opaque to the registry.
pub type JsonMap = Vec<(String, String)>;

/// One browser profile as the registry sees it.
#[derive(Debug, PartialEq)]
pub struct ProfileEntry {
    pub id: String,
    pub name: String,
    pub is_relative: bool,
    pub path: String,
    pub default: bool,
    pub avatar: Option<String>,
    pub options: JsonMap,
}

pub ghost struct ProfileEntryV {
    pub id: Seq<char>,
    pub name: Seq<char>,
    pub is_relative: bool,
    pub path: Seq<char>,
    pub default: bool,
    pub avatar: Option<Seq<char>>,
    pub options: Seq<(Seq<char>, Seq<char>)>,
}

impl View for ProfileEntry {
    type V = ProfileEntryV;

    open spec fn view(&self) -> ProfileEntryV {
        ProfileEntryV {
            id: self.id@,
            name: self.name@,
            is_relative: self.is_relative,
            path: self.path@,
            default: self.default,
            avatar: self.avatar.deep_view(),
            options: self.options.deep_view(),
        }
    }
}

impl DeepView for ProfileEntry {
    type V = ProfileEntryV;

    open spec fn deep_view(&self) -> ProfileEntryV {
        self.view()
    }
}

/// A profile's folder on disk: a relative location lives under the
/// browser's profile directory.
pub open spec fn spec_full_path(e: ProfileEntryV, c: crate::config::ConfigV) -> Seq<char> {
    if e.is_relative {
        crate::config::spec_browser_profile_dir(c) + "/"@ + e.path
    } else {
        e.path
    }
}

impl ProfileEntry {
    /// Resolves the profile's folder against the configuration.
    pub fn full_path(&self, config: &crate::config::Config) -> (r: String)
        ensures
            r@ == spec_full_path(self@, config@),
    {
        if self.is_relative {
            config.browser_profile_dir().concat("/").concat(self.path.as_str())
        } else {
            self.path.clone()
        }
    }
}

/// The registry state: the profile entries plus every non-profile section of
/// the primary file, preserved verbatim for round-trip fidelity.
#[derive(Debug, PartialEq)]
pub struct ProfilesIniState {
    pub backing_sections: Vec<IniSection>,
    pub profile_entries: Vec<ProfileEntry>,
}

pub ghost struct ProfilesIniStateV {
    pub backing_sections: Seq<IniSectionV>,
    pub profile_entries: Seq<ProfileEntryV>,
}

impl View for ProfilesIniState {
    type V = ProfilesIniStateV;

    open spec fn view(&self) -> ProfilesIniStateV {
        ProfilesIniStateV {
            backing_sections: self.backing_sections.deep_view(),
            profile_entries: self.profile_entries.deep_view(),
        }
    }
}

#[derive(Debug)]
pub enum ReadProfilesError {
    BadIniFormat,
    IniError(String),
    AvatarStoreError(String),
    BadAvatarStoreFormat(String),
    OptionsStoreError(String),
    BadOptionsStoreFormat(String),
}

#[derive(Debug)]
pub enum WriteProfilesError {
    WriteIniError(String),
    OpenAvatarFileError(String),
    WriteAvatarFileError(String),
    OpenOptionsFileError(String),
    WriteOptionsFileError(String),
}

// === STABLE PROFILE IDS ===

/// The SHA-256 digest of a byte sequence, as computed by `ring`.
pub uninterp spec fn sha256_of(data: Seq<u8>) -> Seq<u8>;

/// Relies on `ring::digest::digest` with the SHA-256 algorithm; a digest is
/// a pure function of the input bytes and is 32 bytes long.
#[verifier::external_body]
fn sha256_digest(data: &Vec<u8>) -> (r: Vec<u8>)
    ensures
        r@ == sha256_of(data@),
        r@.len() == 32,
{
    ring::digest::digest(&ring::digest::SHA256, data).as_ref().to_vec()
}

/// The upper-case hexadecimal digit for a value below sixteen.
pub open spec fn hex_char(d: int) -> char {
    if d < 10 {
        digit_char(d)
    } else if d == 10 {
        'A'
    } else if d == 11 {
        'B'
    } else if d == 12 {
        'C'
    } else if d == 13 {
        'D'
    } else if d == 14 {
        'E'
    } else {
        'F'
    }
}

/// Upper-case hexadecimal rendering of a byte sequence, high nibble first.
pub open spec fn hex_upper_of(data: Seq<u8>) -> Seq<char>
    decreases data.len(),
{
    if data.len() == 0 {
        Seq::empty()
    } else {
        seq![hex_char(data[0] as int / 16), hex_char(data[0] as int % 16)] + hex_upper_of(
            data.drop_first(),
        )
    }
}

/// Relies on `data_encoding::HEXUPPER::encode`: two upper-case hex digits per
/// input byte, most significant nibble first.
#[verifier::external_body]
fn hex_upper_encode(data: &Vec<u8>) -> (r: String)
    ensures
        r@ == hex_upper_of(data@),
{
    data_encoding::HEXUPPER.encode(data)
}

/// The bytes hashed to derive a profile id: the relativity flag as one byte,
/// then the UTF-8 bytes of the path.
pub open spec fn id_preimage(path: Seq<char>, is_relative: bool) -> Seq<u8> {
    seq![if is_relative { 1u8 } else { 0u8 }] + encode_utf8(path)
}

/// The derived stable id of a profile location: upper-case hex of the
/// SHA-256 digest of the preimage. Independent of the display name.
pub open spec fn id_of(path: Seq<char>, is_relative: bool) -> Seq<char> {
    hex_upper_of(sha256_of(id_preimage(path, is_relative)))
}

/// Derives the stable id for a profile location. Deterministic: the result
/// is a function of the path and the relativity flag alone, so it is the
/// same across calls, restarts and machines.
pub fn calc_profile_id(path: &str, is_relative: bool) -> (r: String)
    ensures
        r@ == id_of(path@, is_relative),
{
    let mut preimage: Vec<u8> = Vec::new();
    preimage.push(if is_relative { 1u8 } else { 0u8 });
    let bs = path.as_bytes();
    let n = bs.len();
    let mut i: usize = 0;
    while i < n
        invariant
            0 <= i <= n,
            n == bs@.len(),
            bs@ == encode_utf8(path@),
            preimage@ =~= seq![if is_relative { 1u8 } else { 0u8 }] + bs@.take(i as int),
        decreases n - i,
    {
        preimage.push(*slice_index_get(bs, i));
        i = i + 1;
    }
    proof {
        assert(preimage@ =~= id_preimage(path@, is_relative));
    }
    let digest = sha256_digest(&preimage);
    hex_upper_encode(&digest)
}

/// Distinct profile locations hash distinct byte preimages: the preimage
/// encoding is injective, so derived ids can only collide where SHA-256
/// itself collides.
pub proof fn lemma_id_preimage_injective(
    path1: Seq<char>,
    rel1: bool,
    path2: Seq<char>,
    rel2: bool,
)
    requires
        id_preimage(path1, rel1) == id_preimage(path2, rel2),
    ensures
        path1 == path2,
        rel1 == rel2,
{
    let p1 = id_preimage(path1, rel1);
    let p2 = id_preimage(path2, rel2);
    assert(p1[0] == (if rel1 { 1u8 } else { 0u8 })) by {
        assert(seq![if rel1 { 1u8 } else { 0u8 }].len() == 1);
    }
    assert(p2[0] == (if rel2 { 1u8 } else { 0u8 })) by {
        assert(seq![if rel2 { 1u8 } else { 0u8 }].len() == 1);
    }
    assert(p1[0] == p2[0]);
    assert(encode_utf8(path1) =~= p1.drop_first());
    assert(encode_utf8(path2) =~= p2.drop_first());
    vstd::utf8::encode_utf8_decode_utf8(path1);
    vstd::utf8::encode_utf8_decode_utf8(path2);
}

// === ASSOCIATION-LIST LOOKUP ===

/// First value bound to `k` in an association list, if any.
pub open spec fn assoc_get<V>(m: Seq<(Seq<char>, V)>, k: Seq<char>) -> Option<V>
    decreases m.len(),
{
    if m.len() == 0 {
        None
    } else if m[0].0 == k {
        Some(m[0].1)
    } else {
        assoc_get(m.drop_first(), k)
    }
}

pub proof fn lemma_assoc_get_skip<V>(m: Seq<(Seq<char>, V)>, k: Seq<char>, i: int)
    requires
        0 <= i <= m.len(),
        forall|j: int| 0 <= j < i ==> m[j].0 != k,
    ensures
        assoc_get(m, k) == assoc_get(m.skip(i), k),
    decreases i,
{
    if i > 0 {
        assert(m[0].0 != k);
        lemma_assoc_get_skip(m.drop_first(), k, i - 1);
        assert(m.drop_first().skip(i - 1) =~= m.skip(i));
    } else {
        assert(m.skip(0) =~= m);
    }
}

/// Looks up the avatar reference recorded for a profile id.
pub fn lookup_avatar(avatars: &Vec<(String, String)>, id: &str) -> (r: Option<String>)
    ensures
        r.deep_view() == assoc_get(avatars.deep_view(), id@),
{
    let n = avatars.len();
    let mut i: usize = 0;
    while i < n
        invariant
            0 <= i <= n,
            n == avatars@.len(),
            forall|j: int| 0 <= j < i ==> avatars.deep_view()[j].0 != id@,
        decreases n - i,
    {
        let pair = &avatars[i];
        if crate::strutil::str_eq(pair.0.as_str(), id) {
            proof {
                lemma_assoc_get_skip(avatars.deep_view(), id@, i as int);
                assert(avatars.deep_view().skip(i as int)[0] == avatars.deep_view()[i as int]);
            }
            return Some(pair.1.clone());
        }
        i = i + 1;
    }
    proof {
        lemma_assoc_get_skip(avatars.deep_view(), id@, n as int);
    }
    None
}

/// Looks up the options object recorded for a profile id.
pub fn lookup_options(options: &Vec<(String, JsonMap)>, id: &str) -> (r: Option<JsonMap>)
    ensures
        r.deep_view() == assoc_get(options.deep_view(), id@),
{
    let n = options.len();
    let mut i: usize = 0;
    while i < n
        invariant
            0 <= i <= n,
            n == options@.len(),
            forall|j: int| 0 <= j < i ==> options.deep_view()[j].0 != id@,
        decreases n - i,
    {
        let pair = &options[i];
        if crate::strutil::str_eq(pair.0.as_str(), id) {
            proof {
                lemma_assoc_get_skip(options.deep_view(), id@, i as int);
                assert(options.deep_view().skip(i as int)[0] == options.deep_view()[i as int]);
            }
            return Some(clone_json_map(&pair.1));
        }
        i = i + 1;
    }
    proof {
        lemma_assoc_get_skip(options.deep_view(), id@, n as int);
    }
    None
}

// === CLONING HELPERS ===

/// Copies a key/value map of strings; the copy has the same view.
pub fn clone_json_map(m: &JsonMap) -> (r: JsonMap)
    ensures
        r.deep_view() == m.deep_view(),
{
    let n = m.len();
    let mut r: JsonMap = Vec::new();
    let mut i: usize = 0;
    while i < n
        invariant
            0 <= i <= n,
            n == m@.len(),
            r.deep_view() =~= m.deep_view().take(i as int),
        decreases n - i,
    {
        let pair = &m[i];
        proof {
            assert(m.deep_view()[i as int] == (pair.0@, pair.1@));
        }
        let ghost rd0 = r.deep_view();
        r.push((pair.0.clone(), pair.1.clone()));
        proof {
            assert(r.deep_view() =~= rd0.push(m.deep_view()[i as int]));
            assert(r.deep_view() =~= m.deep_view().take(i + 1));
        }
        i = i + 1;
    }
    proof {
        assert(r.deep_view() =~= m.deep_view());
    }
    r
}

/// Copies an optional string; the copy has the same view.
pub fn clone_opt_string(o: &Option<String>) -> (r: Option<String>)
    ensures
        r.deep_view() == o.deep_view(),
{
    match o {
        Some(s) => Some(s.clone()),
        None => None,
    }
}

/// Copies a profile entry; the copy has the same view.
pub fn clone_entry(e: &ProfileEntry) -> (r: ProfileEntry)
    ensures
        r@ == e@,
{
    ProfileEntry {
        id: e.id.clone(),
        name: e.name.clone(),
        is_relative: e.is_relative,
        path: e.path.clone(),
        default: e.default,
        avatar: clone_opt_string(&e.avatar),
        options: clone_json_map(&e.options),
    }
}

// === PARSING SECTIONS INTO REGISTRY STATE ===

/// The profile-shaped keys collected while scanning one section; a key that
/// occurs twice keeps its last value, as the original file scan does.
pub ghost struct ProfileFieldsV {
    pub name: Option<Seq<char>>,
    pub is_relative: Option<bool>,
    pub path: Option<Seq<char>>,
    pub default: bool,
}

pub open spec fn empty_fields() -> ProfileFieldsV {
    ProfileFieldsV { name: None, is_relative: None, path: None, default: false }
}

pub open spec fn apply_prop(acc: ProfileFieldsV, key: Seq<char>, value: Seq<char>) -> ProfileFieldsV {
    if key == "Name"@ {
        ProfileFieldsV { name: Some(value), ..acc }
    } else if key == "IsRelative"@ {
        ProfileFieldsV { is_relative: Some(value == "1"@), ..acc }
    } else if key == "Path"@ {
        ProfileFieldsV { path: Some(value), ..acc }
    } else if key == "Default"@ {
        ProfileFieldsV { default: value == "1"@, ..acc }
    } else {
        acc
    }
}

pub open spec fn scan_profile_props(props: Seq<(Seq<char>, Seq<char>)>) -> ProfileFieldsV
    decreases props.len(),
{
    if props.len() == 0 {
        empty_fields()
    } else {
        apply_prop(scan_profile_props(props.drop_last()), props.last().0, props.last().1)
    }
}

/// A section holds a profile exactly when it has a header that begins with
/// `Profile`; everything else is passed through verbatim.
pub open spec fn is_profile_section(name: Option<Seq<char>>) -> bool {
    match name {
        Some(n) => starts_with_of(n, "Profile"@),
        None => false,
    }
}

/// The entry a profile section denotes, joined with the satellite stores by
/// derived id; `None` when a required field is missing.
pub open spec fn entry_of_fields(
    fields: ProfileFieldsV,
    avatars: Seq<(Seq<char>, Seq<char>)>,
    options: Seq<(Seq<char>, Seq<(Seq<char>, Seq<char>)>)>,
) -> Option<ProfileEntryV> {
    match (fields.name, fields.is_relative, fields.path) {
        (Some(name), Some(is_relative), Some(path)) => {
            let id = id_of(path, is_relative);
            Some(
                ProfileEntryV {
                    id: id,
                    name: name,
                    is_relative: is_relative,
                    path: path,
                    default: fields.default,
                    avatar: assoc_get(avatars, id),
                    options: match assoc_get(options, id) {
                        Some(o) => o,
                        None => Seq::empty(),
                    },
                },
            )
        },
        _ => None,
    }
}

pub open spec fn empty_state() -> ProfilesIniStateV {
    ProfilesIniStateV { backing_sections: Seq::empty(), profile_entries: Seq::empty() }
}

/// Parse of a whole section list: profile sections become entries in order,
/// all other sections are kept in order; `None` when any profile section
/// lacks a required field.
pub open spec fn spec_parse_sections(
    sections: Seq<IniSectionV>,
    avatars: Seq<(Seq<char>, Seq<char>)>,
    options: Seq<(Seq<char>, Seq<(Seq<char>, Seq<char>)>)>,
) -> Option<ProfilesIniStateV>
    decreases sections.len(),
{
    if sections.len() == 0 {
        Some(empty_state())
    } else {
        match spec_parse_sections(sections.drop_last(), avatars, options) {
            None => None,
            Some(st) => {
                let sec = sections.last();
                if is_profile_section(sec.name) {
                    match entry_of_fields(scan_profile_props(sec.props), avatars, options) {
                        None => None,
                        Some(e) => Some(
                            ProfilesIniStateV {
                                backing_sections: st.backing_sections,
                                profile_entries: st.profile_entries.push(e),
                            },
                        ),
                    }
                } else {
                    Some(
                        ProfilesIniStateV {
                            backing_sections: st.backing_sections.push(sec),
                            profile_entries: st.profile_entries,
                        },
                    )
                }
            },
        }
    }
}

proof fn lemma_parse_none_extends(
    sections: Seq<IniSectionV>,
    avatars: Seq<(Seq<char>, Seq<char>)>,
    options: Seq<(Seq<char>, Seq<(Seq<char>, Seq<char>)>)>,
    k: int,
)
    requires
        0 <= k <= sections.len(),
        spec_parse_sections(sections.take(k), avatars, options) is None,
    ensures
        spec_parse_sections(sections, avatars, options) is None,
    decreases sections.len(),
{
    if k < sections.len() {
        assert(sections.drop_last().take(k) =~= sections.take(k));
        lemma_parse_none_extends(sections.drop_last(), avatars, options, k);
    } else {
        assert(sections.take(k) =~= sections);
    }
}

/// Copies one section; the copy has the same view.
pub fn clone_section(sec: &IniSection) -> (r: IniSection)
    ensures
        r@ == sec@,
{
    IniSection { name: clone_opt_string(&sec.name), props: clone_json_map(&sec.props) }
}

/// Builds registry state from parsed sections and the two satellite stores.
/// Every section whose header starts with `Profile` must carry `Name`,
/// `IsRelative` and `Path`; otherwise the whole parse is rejected as
/// `BadIniFormat`, never skipped. Other sections are preserved in order.
pub fn parse_profile_sections(
    sections: &Vec<IniSection>,
    avatars: &Vec<(String, String)>,
    options: &Vec<(String, JsonMap)>,
) -> (r: Result<ProfilesIniState, ReadProfilesError>)
    ensures
        match r {
            Ok(st) => spec_parse_sections(
                sections.deep_view(),
                avatars.deep_view(),
                options.deep_view(),
            ) == Some(st@),
            Err(e) => spec_parse_sections(
                sections.deep_view(),
                avatars.deep_view(),
                options.deep_view(),
            ) is None && e is BadIniFormat,
        },
{
    let ghost gsec = sections.deep_view();
    let ghost gav = avatars.deep_view();
    let ghost gopt = options.deep_view();
    let n = sections.len();
    let mut state = ProfilesIniState { backing_sections: Vec::new(), profile_entries: Vec::new() };
    let mut i: usize = 0;
    proof {
        assert(gsec.take(0) =~= Seq::<IniSectionV>::empty());
        assert(state@.backing_sections =~= Seq::<IniSectionV>::empty());
        assert(state@.profile_entries =~= Seq::<ProfileEntryV>::empty());
    }
    while i < n
        invariant
            0 <= i <= n,
            n == sections@.len(),
            gsec == sections.deep_view(),
            gav == avatars.deep_view(),
            gopt == options.deep_view(),
            spec_parse_sections(gsec.take(i as int), gav, gopt) == Some(state@),
        decreases n - i,
    {
        let sec = &sections[i];
        proof {
            assert(gsec.take(i + 1).drop_last() =~= gsec.take(i as int));
            assert(gsec.take(i + 1).last() == gsec[i as int]);
            assert(sec@ == gsec[i as int]);
        }
        let profile_shaped = match &sec.name {
            Some(sname) => starts_with(sname.as_str(), "Profile"),
            None => false,
        };
        if !profile_shaped {
            state.backing_sections.push(clone_section(sec));
            proof {
                let st0 = spec_parse_sections(gsec.take(i as int), gav, gopt).unwrap();
                assert(state@.backing_sections =~= st0.backing_sections.push(gsec[i as int]));
                assert(spec_parse_sections(gsec.take(i + 1), gav, gopt) == Some(state@));
            }
        } else {
            let mut f_name: Option<String> = None;
            let mut f_rel: Option<bool> = None;
            let mut f_path: Option<String> = None;
            let mut f_default: bool = false;
            let np = sec.props.len();
            let mut j: usize = 0;
            proof {
                assert(sec@.props.take(0) =~= Seq::<(Seq<char>, Seq<char>)>::empty());
            }
            while j < np
                invariant
                    0 <= j <= np,
                    np == sec.props@.len(),
                    scan_profile_props(sec@.props.take(j as int)) == (ProfileFieldsV {
                        name: f_name.deep_view(),
                        is_relative: f_rel,
                        path: f_path.deep_view(),
                        default: f_default,
                    }),
                decreases np - j,
            {
                let kv = &sec.props[j];
                proof {
                    assert(sec@.props.take(j + 1).drop_last() =~= sec@.props.take(j as int));
                    assert(sec@.props.take(j + 1).last() == sec@.props[j as int]);
                }
                if str_eq(kv.0.as_str(), "Name") {
                    f_name = Some(kv.1.clone());
                } else if str_eq(kv.0.as_str(), "IsRelative") {
                    f_rel = Some(str_eq(kv.1.as_str(), "1"));
                } else if str_eq(kv.0.as_str(), "Path") {
                    f_path = Some(kv.1.clone());
                } else if str_eq(kv.0.as_str(), "Default") {
                    f_default = str_eq(kv.1.as_str(), "1");
                }
                j = j + 1;
            }
            proof {
                assert(sec@.props.take(np as int) =~= sec@.props);
            }
            match (f_name, f_rel, f_path) {
                (Some(name), Some(is_relative), Some(path)) => {
                    proof {
                        assert(scan_profile_props(gsec[i as int].props) == (ProfileFieldsV {
                            name: Some(name@),
                            is_relative: Some(is_relative),
                            path: Some(path@),
                            default: f_default,
                        }));
                    }
                    let id = calc_profile_id(path.as_str(), is_relative);
                    let avatar = lookup_avatar(avatars, id.as_str());
                    let opts = match lookup_options(options, id.as_str()) {
                        Some(o) => o,
                        None => Vec::new(),
                    };
                    let entry = ProfileEntry {
                        id: id,
                        name: name,
                        is_relative: is_relative,
                        path: path,
                        default: f_default,
                        avatar: avatar,
                        options: opts,
                    };
                    proof {
                        let se = entry_of_fields(
                            scan_profile_props(gsec[i as int].props),
                            gav,
                            gopt,
                        ).unwrap();
                        assert(entry@.options =~= se.options);
                        assert(entry@ == se);
                    }
                    state.profile_entries.push(entry);
                    proof {
                        let st0 = spec_parse_sections(gsec.take(i as int), gav, gopt).unwrap();
                        let se = entry_of_fields(
                            scan_profile_props(gsec[i as int].props),
                            gav,
                            gopt,
                        ).unwrap();
                        assert(state@.profile_entries =~= st0.profile_entries.push(se));
                        assert(spec_parse_sections(gsec.take(i + 1), gav, gopt) == Some(state@));
                    }
                },
                _ => {
                    proof {
                        lemma_parse_none_extends(gsec, gav, gopt, i + 1);
                    }
                    return Err(ReadProfilesError::BadIniFormat);
                },
            }
        }
        i = i + 1;
    }
    proof {
        assert(gsec.take(n as int) =~= gsec);
    }
    Ok(state)
}

/// Loads registry state from the primary file's text and the two satellite
/// stores. The INI grammar itself is the `ini` crate's; every section it
/// yields is then interpreted by `parse_profile_sections`.
pub fn read_profiles(
    ini_text: &str,
    avatars: &Vec<(String, String)>,
    options: &Vec<(String, JsonMap)>,
) -> (r: Result<ProfilesIniState, ReadProfilesError>)
    ensures
        match r {
            Ok(st) => crate::inifile::ini_parse_ok(ini_text@) && spec_parse_sections(
                crate::inifile::ini_sections_of(ini_text@),
                avatars.deep_view(),
                options.deep_view(),
            ) == Some(st@),
            Err(e) => match e {
                ReadProfilesError::IniError(_) => !crate::inifile::ini_parse_ok(ini_text@),
                ReadProfilesError::BadIniFormat => crate::inifile::ini_parse_ok(ini_text@)
                    && spec_parse_sections(
                    crate::inifile::ini_sections_of(ini_text@),
                    avatars.deep_view(),
                    options.deep_view(),
                ) is None,
                _ => false,
            },
        },
{
    match crate::inifile::parse_ini_str(ini_text) {
        Ok(sections) => parse_profile_sections(&sections, avatars, options),
        Err(e) => Err(ReadProfilesError::IniError(e)),
    }
}

// === SERIALIZING REGISTRY STATE ===

/// The avatar store a state persists: one record per entry that has an
/// avatar, keyed by derived id, in entry order.
pub open spec fn avatars_of(entries: Seq<ProfileEntryV>) -> Seq<(Seq<char>, Seq<char>)>
    decreases entries.len(),
{
    if entries.len() == 0 {
        Seq::empty()
    } else {
        match entries[0].avatar {
            Some(a) => seq![(entries[0].id, a)] + avatars_of(entries.drop_first()),
            None => avatars_of(entries.drop_first()),
        }
    }
}

/// The options store a state persists: one record per entry, keyed by
/// derived id, in entry order.
pub open spec fn options_of(entries: Seq<ProfileEntryV>) -> Seq<
    (Seq<char>, Seq<(Seq<char>, Seq<char>)>),
>
    decreases entries.len(),
{
    if entries.len() == 0 {
        Seq::empty()
    } else {
        seq![(entries[0].id, entries[0].options)] + options_of(entries.drop_first())
    }
}

pub open spec fn rel_str(is_relative: bool) -> Seq<char> {
    if is_relative {
        "1"@
    } else {
        "0"@
    }
}

/// The section written for the entry at position `i`.
pub open spec fn profile_section_of(i: int, e: ProfileEntryV) -> IniSectionV {
    IniSectionV {
        name: Some("Profile"@ + dec_str_of(i)),
        props: if e.default {
            seq![
                ("Name"@, e.name),
                ("IsRelative"@, rel_str(e.is_relative)),
                ("Path"@, e.path),
                ("Default"@, "1"@),
            ]
        } else {
            seq![("Name"@, e.name), ("IsRelative"@, rel_str(e.is_relative)), ("Path"@, e.path)]
        },
    }
}

pub open spec fn profile_sections_of(entries: Seq<ProfileEntryV>) -> Seq<IniSectionV> {
    Seq::new(entries.len(), |i: int| profile_section_of(i, entries[i]))
}

/// The path propagated into `Install` sections: the path of the last entry
/// marked default, if any.
pub open spec fn default_path_of(entries: Seq<ProfileEntryV>) -> Option<Seq<char>>
    decreases entries.len(),
{
    if entries.len() == 0 {
        None
    } else if entries.last().default {
        Some(entries.last().path)
    } else {
        default_path_of(entries.drop_last())
    }
}

pub open spec fn has_key(props: Seq<(Seq<char>, Seq<char>)>, key: Seq<char>) -> bool {
    exists|j: int| 0 <= j < props.len() && props[j].0 == key
}

/// The property list without any binding for `key`.
pub open spec fn drop_key(props: Seq<(Seq<char>, Seq<char>)>, key: Seq<char>) -> Seq<
    (Seq<char>, Seq<char>),
>
    decreases props.len(),
{
    if props.len() == 0 {
        Seq::empty()
    } else if props[0].0 == key {
        drop_key(props.drop_first(), key)
    } else {
        seq![props[0]] + drop_key(props.drop_first(), key)
    }
}

/// Replacement semantics of the INI property setter: the first binding of
/// `key` takes the new value, later bindings of `key` are dropped, and a
/// missing key is appended at the end.
pub open spec fn set_prop(
    props: Seq<(Seq<char>, Seq<char>)>,
    key: Seq<char>,
    value: Seq<char>,
) -> Seq<(Seq<char>, Seq<char>)>
    decreases props.len(),
{
    if props.len() == 0 {
        seq![(key, value)]
    } else if props[0].0 == key {
        seq![(key, value)] + drop_key(props.drop_first(), key)
    } else {
        seq![props[0]] + set_prop(props.drop_first(), key, value)
    }
}

/// An `Install` section that records a default profile is rewritten to point
/// at the new default path, with its lock flag cleared; other sections are
/// untouched.
pub open spec fn install_section_updated(sec: IniSectionV, default_path: Seq<char>) -> IniSectionV {
    match sec.name {
        Some(n) => if starts_with_of(n, "Install"@) && has_key(sec.props, "Default"@) {
            IniSectionV {
                name: sec.name,
                props: set_prop(set_prop(sec.props, "Default"@, default_path), "Locked"@, "0"@),
            }
        } else {
            sec
        },
        None => sec,
    }
}

pub open spec fn apply_installs_default(
    sections: Seq<IniSectionV>,
    default_path: Option<Seq<char>>,
) -> Seq<IniSectionV> {
    match default_path {
        None => sections,
        Some(p) => Seq::new(sections.len(), |i: int| install_section_updated(sections[i], p)),
    }
}

/// The full primary-file image a state persists: the pass-through sections
/// (with any `Install` default propagated), then one section per profile.
pub open spec fn sections_out_of(st: ProfilesIniStateV) -> Seq<IniSectionV> {
    apply_installs_default(st.backing_sections, default_path_of(st.profile_entries))
        + profile_sections_of(st.profile_entries)
}

fn has_key_exec(props: &Vec<(String, String)>, key: &str) -> (r: bool)
    ensures
        r == has_key(props.deep_view(), key@),
{
    let n = props.len();
    let mut i: usize = 0;
    while i < n
        invariant
            0 <= i <= n,
            n == props@.len(),
            forall|j: int| 0 <= j < i ==> props.deep_view()[j].0 != key@,
        decreases n - i,
    {
        let pair = &props[i];
        proof {
            assert(props.deep_view()[i as int] == (pair.0@, pair.1@));
        }
        if str_eq(pair.0.as_str(), key) {
            return true;
        }
        i = i + 1;
    }
    false
}

/// Applies `set_prop` to a property list.
pub fn set_prop_exec(props: &Vec<(String, String)>, key: &str, value: &str) -> (r: Vec<
    (String, String),
>)
    ensures
        r.deep_view() == set_prop(props.deep_view(), key@, value@),
{
    let ghost gp = props.deep_view();
    let n = props.len();
    let mut r: Vec<(String, String)> = Vec::new();
    let mut found = false;
    let mut i: usize = 0;
    proof {
        assert(gp.skip(0) =~= gp);
        assert(r.deep_view() =~= Seq::<(Seq<char>, Seq<char>)>::empty());
    }
    while i < n
        invariant
            0 <= i <= n,
            n == props@.len(),
            gp == props.deep_view(),
            !found ==> set_prop(gp, key@, value@) == r.deep_view() + set_prop(
                gp.skip(i as int),
                key@,
                value@,
            ),
            found ==> set_prop(gp, key@, value@) == r.deep_view() + drop_key(
                gp.skip(i as int),
                key@,
            ),
        decreases n - i,
    {
        let kv = &props[i];
        proof {
            assert(gp.skip(i as int)[0] == gp[i as int]);
            assert(gp.skip(i as int).drop_first() =~= gp.skip(i + 1));
            assert(kv@.0 == gp[i as int].0 && kv@.1 == gp[i as int].1);
        }
        let is_key = str_eq(kv.0.as_str(), key);
        if is_key && !found {
            let ghost rd0 = r.deep_view();
            r.push((key.to_owned(), value.to_owned()));
            found = true;
            proof {
                assert(r.deep_view() =~= rd0 + seq![(key@, value@)]);
                assert(set_prop(gp.skip(i as int), key@, value@) =~= seq![(key@, value@)]
                    + drop_key(gp.skip(i + 1), key@));
                assert(set_prop(gp, key@, value@) =~= r.deep_view() + drop_key(
                    gp.skip(i + 1),
                    key@,
                ));
            }
        } else if is_key && found {
            proof {
                assert(drop_key(gp.skip(i as int), key@) =~= drop_key(gp.skip(i + 1), key@));
            }
        } else {
            r.push((kv.0.clone(), kv.1.clone()));
            proof {
                if found {
                    assert(drop_key(gp.skip(i as int), key@) =~= seq![gp[i as int]] + drop_key(
                        gp.skip(i + 1),
                        key@,
                    ));
                    assert(set_prop(gp, key@, value@) =~= r.deep_view() + drop_key(
                        gp.skip(i + 1),
                        key@,
                    ));
                } else {
                    assert(set_prop(gp.skip(i as int), key@, value@) =~= seq![gp[i as int]]
                        + set_prop(gp.skip(i + 1), key@, value@));
                    assert(set_prop(gp, key@, value@) =~= r.deep_view() + set_prop(
                        gp.skip(i + 1),
                        key@,
                        value@,
                    ));
                }
            }
        }
        i = i + 1;
    }
    proof {
        assert(gp.skip(n as int) =~= Seq::<(Seq<char>, Seq<char>)>::empty());
    }
    if !found {
        r.push((key.to_owned(), value.to_owned()));
        proof {
            assert(set_prop(gp, key@, value@) =~= r.deep_view());
        }
    } else {
        proof {
            assert(drop_key(Seq::<(Seq<char>, Seq<char>)>::empty(), key@) =~= Seq::<
                (Seq<char>, Seq<char>),
            >::empty());
            assert(set_prop(gp, key@, value@) =~= r.deep_view());
        }
    }
    r
}

/// Everything a save writes: the two satellite stores, the primary file's
/// sections, and (when a default profile exists) the path to propagate into
/// the separate installs file. The stores must be written in this order:
/// avatars, options, then the primary list, so that a crash between writes
/// leaves satellite data for at most a superset of the known profiles.
pub struct RegistryWritePlan {
    pub avatars: Vec<(String, String)>,
    pub options: Vec<(String, JsonMap)>,
    pub sections: Vec<IniSection>,
    pub default_profile_path: Option<String>,
}

/// Serializes registry state for persistence. The satellite stores are
/// rebuilt from the entries alone, so every id they mention belongs to a
/// current profile; the section list keeps every pass-through section.
pub fn write_profiles(state: &ProfilesIniState) -> (r: RegistryWritePlan)
    ensures
        r.avatars.deep_view() == avatars_of(state@.profile_entries),
        r.options.deep_view() == options_of(state@.profile_entries),
        r.sections.deep_view() == sections_out_of(state@),
        r.default_profile_path.deep_view() == default_path_of(state@.profile_entries),
{
    let ghost ge = state@.profile_entries;
    let n = state.profile_entries.len();

    // satellite stores
    let mut avatars: Vec<(String, String)> = Vec::new();
    let mut options: Vec<(String, JsonMap)> = Vec::new();
    let mut i: usize = 0;
    proof {
        assert(ge.skip(0) =~= ge);
        assert(avatars.deep_view() =~= Seq::<(Seq<char>, Seq<char>)>::empty());
        assert(options.deep_view() =~= Seq::<(Seq<char>, Seq<(Seq<char>, Seq<char>)>)>::empty());
    }
    while i < n
        invariant
            0 <= i <= n,
            n == state.profile_entries@.len(),
            ge == state@.profile_entries,
            avatars_of(ge) == avatars.deep_view() + avatars_of(ge.skip(i as int)),
            options_of(ge) == options.deep_view() + options_of(ge.skip(i as int)),
        decreases n - i,
    {
        let e = &state.profile_entries[i];
        proof {
            assert(e@ == ge[i as int]);
            assert(ge.skip(i as int)[0] == ge[i as int]);
            assert(ge.skip(i as int).drop_first() =~= ge.skip(i + 1));
        }
        match &e.avatar {
            Some(a) => {
                avatars.push((e.id.clone(), a.clone()));
                proof {
                    assert(avatars_of(ge.skip(i as int)) =~= seq![
                        (ge[i as int].id, ge[i as int].avatar.unwrap()),
                    ] + avatars_of(ge.skip(i + 1)));
                    assert(avatars_of(ge) =~= avatars.deep_view() + avatars_of(ge.skip(i + 1)));
                }
            },
            None => {
                proof {
                    assert(avatars_of(ge.skip(i as int)) =~= avatars_of(ge.skip(i + 1)));
                }
            },
        }
        options.push((e.id.clone(), clone_json_map(&e.options)));
        proof {
            assert(options_of(ge.skip(i as int)) =~= seq![(ge[i as int].id, ge[i as int].options)]
                + options_of(ge.skip(i + 1)));
            assert(options_of(ge) =~= options.deep_view() + options_of(ge.skip(i + 1)));
        }
        i = i + 1;
    }
    proof {
        assert(ge.skip(n as int) =~= Seq::<ProfileEntryV>::empty());
        assert(avatars_of(ge) =~= avatars.deep_view());
        assert(options_of(ge) =~= options.deep_view());
    }

    // last default entry's path, if any
    let mut default_profile_path: Option<String> = None;
    let mut i2: usize = 0;
    proof {
        assert(ge.take(0) =~= Seq::<ProfileEntryV>::empty());
    }
    while i2 < n
        invariant
            0 <= i2 <= n,
            n == state.profile_entries@.len(),
            ge == state@.profile_entries,
            default_profile_path.deep_view() == default_path_of(ge.take(i2 as int)),
        decreases n - i2,
    {
        let e = &state.profile_entries[i2];
        proof {
            assert(e@ == ge[i2 as int]);
            assert(ge.take(i2 + 1).drop_last() =~= ge.take(i2 as int));
            assert(ge.take(i2 + 1).last() == ge[i2 as int]);
        }
        if e.default {
            default_profile_path = Some(e.path.clone());
        }
        i2 = i2 + 1;
    }
    proof {
        assert(ge.take(n as int) =~= ge);
    }

    // pass-through sections, with any install default propagated
    let nb = state.backing_sections.len();
    let ghost gb = state@.backing_sections;
    let mut sections: Vec<IniSection> = Vec::new();
    let mut i3: usize = 0;
    while i3 < nb
        invariant
            0 <= i3 <= nb,
            nb == state.backing_sections@.len(),
            gb == state@.backing_sections,
            ge == state@.profile_entries,
            default_profile_path.deep_view() == default_path_of(ge),
            sections.deep_view().len() == i3,
            forall|k: int|
                0 <= k < i3 ==> sections.deep_view()[k] == apply_installs_default(
                    gb,
                    default_path_of(ge),
                )[k],
        decreases nb - i3,
    {
        let sec = &state.backing_sections[i3];
        proof {
            assert(sec@ == gb[i3 as int]);
        }
        let ghost target = apply_installs_default(gb, default_path_of(ge));
        let newsec: IniSection = match (&default_profile_path, &sec.name) {
            (Some(dp), Some(sname)) => {
                if starts_with(sname.as_str(), "Install") && has_key_exec(&sec.props, "Default") {
                    let new_props = set_prop_exec(
                        &set_prop_exec(&sec.props, "Default", dp.as_str()),
                        "Locked",
                        "0",
                    );
                    let ns = IniSection { name: Some(sname.clone()), props: new_props };
                    proof {
                        assert(ns@.props == install_section_updated(gb[i3 as int], dp@).props);
                        assert(ns@ == target[i3 as int]);
                    }
                    ns
                } else {
                    let ns = clone_section(sec);
                    proof {
                        assert(ns@ == target[i3 as int]);
                    }
                    ns
                }
            },
            _ => {
                let ns = clone_section(sec);
                proof {
                    assert(ns@ == target[i3 as int]);
                }
                ns
            },
        };
        let ghost sd0 = sections.deep_view();
        sections.push(newsec);
        proof {
            assert(sections.deep_view() =~= sd0.push(target[i3 as int]));
        }
        i3 = i3 + 1;
    }
    proof {
        assert(sections.deep_view() =~= apply_installs_default(gb, default_path_of(ge)));
    }

    // one section per profile entry
    let mut i4: usize = 0;
    while i4 < n
        invariant
            0 <= i4 <= n,
            n == state.profile_entries@.len(),
            ge == state@.profile_entries,
            gb == state@.backing_sections,
            default_profile_path.deep_view() == default_path_of(ge),
            avatars.deep_view() == avatars_of(ge),
            options.deep_view() == options_of(ge),
            sections.deep_view().len() == gb.len() + i4,
            forall|k: int|
                0 <= k < gb.len() ==> sections.deep_view()[k] == apply_installs_default(
                    gb,
                    default_path_of(ge),
                )[k],
            forall|k: int|
                0 <= k < i4 ==> sections.deep_view()[gb.len() + k] == profile_section_of(
                    k,
                    ge[k],
                ),
        decreases n - i4,
    {
        let e = &state.profile_entries[i4];
        proof {
            assert(e@ == ge[i4 as int]);
        }
        let num = usize_to_string(i4);
        let name = String::from_str("Profile").concat(num.as_str());
        let mut props: Vec<(String, String)> = Vec::new();
        props.push(("Name".to_owned(), e.name.clone()));
        props.push((
            "IsRelative".to_owned(),
            if e.is_relative {
                "1".to_owned()
            } else {
                "0".to_owned()
            },
        ));
        props.push(("Path".to_owned(), e.path.clone()));
        if e.default {
            props.push(("Default".to_owned(), "1".to_owned()));
        }
        let sec = IniSection { name: Some(name), props };
        proof {
            assert(sec@.props =~= profile_section_of(i4 as int, ge[i4 as int]).props);
            assert(sec@ == profile_section_of(i4 as int, ge[i4 as int]));
        }
        let ghost sd0 = sections.deep_view();
        sections.push(sec);
        proof {
            assert(sections.deep_view() =~= sd0.push(profile_section_of(i4 as int, ge[i4 as int])));
        }
        i4 = i4 + 1;
    }
    proof {
        assert(sections.deep_view() =~= sections_out_of(state@));
    }

    RegistryWritePlan { avatars, options, sections, default_profile_path }
}

// === REGISTRY LAWS ===

/// No two entries share a derived id.
pub open spec fn distinct_ids(entries: Seq<ProfileEntryV>) -> bool {
    forall|i: int, j: int|
        0 <= i < j < entries.len() ==> entries[i].id != entries[j].id
}

/// At most one entry is marked as the default profile.
pub open spec fn at_most_one_default(entries: Seq<ProfileEntryV>) -> bool {
    forall|i: int, j: int|
        0 <= i < j < entries.len() ==> !(entries[i].default && entries[j].default)
}

/// A well-formed registry state: every id is the derived id of its entry's
/// location, ids are distinct, and no pass-through section is profile-shaped.
pub open spec fn wf_state(st: ProfilesIniStateV) -> bool {
    &&& forall|i: int|
        0 <= i < st.profile_entries.len() ==> st.profile_entries[i].id == id_of(
            st.profile_entries[i].path,
            st.profile_entries[i].is_relative,
        )
    &&& distinct_ids(st.profile_entries)
    &&& forall|i: int|
        0 <= i < st.backing_sections.len() ==> !is_profile_section(st.backing_sections[i].name)
}

proof fn lemma_avatars_absent(entries: Seq<ProfileEntryV>, id: Seq<char>)
    requires
        forall|j: int| 0 <= j < entries.len() ==> entries[j].id != id,
    ensures
        assoc_get(avatars_of(entries), id) is None,
    decreases entries.len(),
{
    if entries.len() > 0 {
        lemma_avatars_absent(entries.drop_first(), id);
        match entries[0].avatar {
            Some(a) => {
                assert(avatars_of(entries)[0].0 == entries[0].id);
                assert(avatars_of(entries).drop_first() =~= avatars_of(entries.drop_first()));
            },
            None => {},
        }
    }
}

proof fn lemma_options_absent(entries: Seq<ProfileEntryV>, id: Seq<char>)
    requires
        forall|j: int| 0 <= j < entries.len() ==> entries[j].id != id,
    ensures
        assoc_get(options_of(entries), id) is None,
    decreases entries.len(),
{
    if entries.len() > 0 {
        lemma_options_absent(entries.drop_first(), id);
        assert(options_of(entries).drop_first() =~= options_of(entries.drop_first()));
    }
}

proof fn lemma_avatars_get(entries: Seq<ProfileEntryV>, i: int)
    requires
        distinct_ids(entries),
        0 <= i < entries.len(),
    ensures
        assoc_get(avatars_of(entries), entries[i].id) == entries[i].avatar,
    decreases entries.len(),
{
    let rest = entries.drop_first();
    if i == 0 {
        match entries[0].avatar {
            Some(a) => {
                assert(avatars_of(entries)[0] == (entries[0].id, a));
            },
            None => {
                assert(forall|j: int| 0 <= j < rest.len() ==> rest[j].id != entries[0].id);
                lemma_avatars_absent(rest, entries[0].id);
            },
        }
    } else {
        assert(distinct_ids(rest));
        lemma_avatars_get(rest, i - 1);
        assert(rest[i - 1] == entries[i]);
        match entries[0].avatar {
            Some(a) => {
                assert(entries[0].id != entries[i].id);
                assert(avatars_of(entries).drop_first() =~= avatars_of(rest));
            },
            None => {},
        }
    }
}

proof fn lemma_options_get(entries: Seq<ProfileEntryV>, i: int)
    requires
        distinct_ids(entries),
        0 <= i < entries.len(),
    ensures
        assoc_get(options_of(entries), entries[i].id) == Some(entries[i].options),
    decreases entries.len(),
{
    let rest = entries.drop_first();
    if i == 0 {
        assert(options_of(entries)[0] == (entries[0].id, entries[0].options));
    } else {
        assert(distinct_ids(rest));
        lemma_options_get(rest, i - 1);
        assert(rest[i - 1] == entries[i]);
        assert(entries[0].id != entries[i].id);
        assert(options_of(entries).drop_first() =~= options_of(rest));
    }
}

proof fn lemma_parse_backing(
    sections: Seq<IniSectionV>,
    avatars: Seq<(Seq<char>, Seq<char>)>,
    options: Seq<(Seq<char>, Seq<(Seq<char>, Seq<char>)>)>,
)
    requires
        forall|k: int| 0 <= k < sections.len() ==> !is_profile_section(sections[k].name),
    ensures
        spec_parse_sections(sections, avatars, options) == Some(
            ProfilesIniStateV {
                backing_sections: sections,
                profile_entries: Seq::empty(),
            },
        ),
    decreases sections.len(),
{
    if sections.len() == 0 {
        assert(sections =~= Seq::<IniSectionV>::empty());
    } else {
        lemma_parse_backing(sections.drop_last(), avatars, options);
        assert(sections.drop_last().push(sections.last()) =~= sections);
    }
}

proof fn lemma_scan_profile_section(i: int, e: ProfileEntryV)
    ensures
        scan_profile_props(profile_section_of(i, e).props) == (ProfileFieldsV {
            name: Some(e.name),
            is_relative: Some(e.is_relative),
            path: Some(e.path),
            default: e.default,
        }),
{
    reveal_strlit("Name");
    reveal_strlit("IsRelative");
    reveal_strlit("Path");
    reveal_strlit("Default");
    reveal_strlit("1");
    reveal_strlit("0");
    assert("Name"@.len() == 4 && "IsRelative"@.len() == 10 && "Path"@.len() == 4
        && "Default"@.len() == 7);
    assert("Name"@[0] == 'N' && "Path"@[0] == 'P');
    assert("0"@.len() == 1 && "1"@.len() == 1 && "0"@[0] == '0' && "1"@[0] == '1');
    let props = profile_section_of(i, e).props;
    let base = seq![("Name"@, e.name), ("IsRelative"@, rel_str(e.is_relative)), ("Path"@, e.path)];
    let f0 = empty_fields();
    let f1 = apply_prop(f0, "Name"@, e.name);
    let f2 = apply_prop(f1, "IsRelative"@, rel_str(e.is_relative));
    let f3 = apply_prop(f2, "Path"@, e.path);
    assert(base.drop_last() =~= seq![("Name"@, e.name), ("IsRelative"@, rel_str(e.is_relative))]);
    assert(base.drop_last().drop_last() =~= seq![("Name"@, e.name)]);
    assert(base.drop_last().drop_last().drop_last() =~= Seq::<(Seq<char>, Seq<char>)>::empty());
    assert(scan_profile_props(base.drop_last().drop_last().drop_last()) == f0);
    assert(base.drop_last().drop_last().last() == ("Name"@, e.name));
    assert(scan_profile_props(base.drop_last().drop_last()) == f1);
    assert(base.drop_last().last() == ("IsRelative"@, rel_str(e.is_relative)));
    assert(scan_profile_props(base.drop_last()) == f2);
    assert(base.last() == ("Path"@, e.path));
    assert(scan_profile_props(base) == f3);
    assert(rel_str(e.is_relative) == "1"@ <==> e.is_relative);
    assert(f3 == (ProfileFieldsV {
        name: Some(e.name),
        is_relative: Some(e.is_relative),
        path: Some(e.path),
        default: false,
    }));
    if e.default {
        assert(props.drop_last() =~= base);
        assert(props.last() == ("Default"@, "1"@));
        assert(scan_profile_props(props) == apply_prop(f3, "Default"@, "1"@));
    } else {
        assert(props == base);
    }
}

proof fn lemma_roundtrip_prefix(st: ProfilesIniStateV, k: int)
    requires
        wf_state(st),
        0 <= k <= st.profile_entries.len(),
    ensures
        spec_parse_sections(
            apply_installs_default(st.backing_sections, default_path_of(st.profile_entries))
                + profile_sections_of(st.profile_entries).take(k),
            avatars_of(st.profile_entries),
            options_of(st.profile_entries),
        ) == Some(
            ProfilesIniStateV {
                backing_sections: apply_installs_default(
                    st.backing_sections,
                    default_path_of(st.profile_entries),
                ),
                profile_entries: st.profile_entries.take(k),
            },
        ),
    decreases k,
{
    let entries = st.profile_entries;
    let backing2 = apply_installs_default(st.backing_sections, default_path_of(entries));
    let avs = avatars_of(entries);
    let opts = options_of(entries);
    let psecs = profile_sections_of(entries);
    assert(backing2.len() == st.backing_sections.len());
    assert(forall|j: int|
        0 <= j < backing2.len() ==> backing2[j].name == st.backing_sections[j].name);
    if k == 0 {
        assert(backing2 + psecs.take(0) =~= backing2);
        lemma_parse_backing(backing2, avs, opts);
        assert(entries.take(0) =~= Seq::<ProfileEntryV>::empty());
    } else {
        lemma_roundtrip_prefix(st, k - 1);
        let whole = backing2 + psecs.take(k);
        assert(whole.drop_last() =~= backing2 + psecs.take(k - 1));
        let e = entries[k - 1];
        let sec = profile_section_of(k - 1, e);
        assert(whole.last() == sec);
        // the section header is profile-shaped
        assert(("Profile"@ + dec_str_of(k - 1)).subrange(0, "Profile"@.len() as int)
            =~= "Profile"@);
        assert(is_profile_section(sec.name));
        // its keys scan back to the entry's fields
        lemma_scan_profile_section(k - 1, e);
        lemma_avatars_get(entries, k - 1);
        lemma_options_get(entries, k - 1);
        let parsed = entry_of_fields(scan_profile_props(sec.props), avs, opts).unwrap();
        assert(parsed == e);
        assert(entries.take(k - 1).push(e) =~= entries.take(k));
    }
}

/// Round-trip law: loading what a save produced reconstructs the same
/// profile records (ids, names, locations, default flags, avatars and
/// options); the pass-through sections change only by the propagation of the
/// default path into `Install` sections, which the save performs on purpose.
pub proof fn lemma_save_load_roundtrip(st: ProfilesIniStateV)
    requires
        wf_state(st),
    ensures
        spec_parse_sections(
            sections_out_of(st),
            avatars_of(st.profile_entries),
            options_of(st.profile_entries),
        ) == Some(
            ProfilesIniStateV {
                backing_sections: apply_installs_default(
                    st.backing_sections,
                    default_path_of(st.profile_entries),
                ),
                profile_entries: st.profile_entries,
            },
        ),
{
    lemma_roundtrip_prefix(st, st.profile_entries.len() as int);
    assert(profile_sections_of(st.profile_entries).take(st.profile_entries.len() as int)
        =~= profile_sections_of(st.profile_entries));
    assert(st.profile_entries.take(st.profile_entries.len() as int) =~= st.profile_entries);
}

proof fn lemma_avatar_keys(entries: Seq<ProfileEntryV>, j: int)
    requires
        0 <= j < avatars_of(entries).len(),
    ensures
        exists|i: int|
            0 <= i < entries.len() && entries[i].id == avatars_of(entries)[j].0,
    decreases entries.len(),
{
    let rest = entries.drop_first();
    match entries[0].avatar {
        Some(a) => {
            if j == 0 {
                assert(entries[0].id == avatars_of(entries)[0].0);
            } else {
                lemma_avatar_keys(rest, j - 1);
                let i0 = choose|i: int|
                    0 <= i < rest.len() && rest[i].id == avatars_of(rest)[j - 1].0;
                assert(entries[i0 + 1].id == avatars_of(entries)[j].0);
            }
        },
        None => {
            lemma_avatar_keys(rest, j);
            let i0 = choose|i: int| 0 <= i < rest.len() && rest[i].id == avatars_of(rest)[j].0;
            assert(entries[i0 + 1].id == avatars_of(entries)[j].0);
        },
    }
}

proof fn lemma_option_keys(entries: Seq<ProfileEntryV>, j: int)
    requires
        0 <= j < options_of(entries).len(),
    ensures
        exists|i: int|
            0 <= i < entries.len() && entries[i].id == options_of(entries)[j].0,
    decreases entries.len(),
{
    if j == 0 {
        assert(entries[0].id == options_of(entries)[0].0);
    } else {
        let rest = entries.drop_first();
        lemma_option_keys(rest, j - 1);
        let i0 = choose|i: int| 0 <= i < rest.len() && rest[i].id == options_of(rest)[j - 1].0;
        assert(entries[i0 + 1].id == options_of(entries)[j].0);
    }
}

/// Referential-integrity law of a save: every id mentioned by the avatar or
/// options store it writes is the derived id of a profile present in the
/// list it writes.
pub proof fn lemma_save_referential_integrity(entries: Seq<ProfileEntryV>)
    ensures
        forall|j: int|
            0 <= j < avatars_of(entries).len() ==> exists|i: int|
                0 <= i < entries.len() && entries[i].id == #[trigger] avatars_of(entries)[j].0,
        forall|j: int|
            0 <= j < options_of(entries).len() ==> exists|i: int|
                0 <= i < entries.len() && entries[i].id == #[trigger] options_of(entries)[j].0,
{
    assert forall|j: int| 0 <= j < avatars_of(entries).len() implies exists|i: int|
        0 <= i < entries.len() && entries[i].id == #[trigger] avatars_of(entries)[j].0 by {
        lemma_avatar_keys(entries, j);
    }
    assert forall|j: int| 0 <= j < options_of(entries).len() implies exists|i: int|
        0 <= i < entries.len() && entries[i].id == #[trigger] options_of(entries)[j].0 by {
        lemma_option_keys(entries, j);
    }
}

// === LOOKUP AND NAME-CONFLICT CHECKS ===

/// Index of the first entry with this id, or a negative value when absent.
pub open spec fn find_index(entries: Seq<ProfileEntryV>, id: Seq<char>) -> int
    decreases entries.len(),
{
    if entries.len() == 0 {
        -1
    } else if entries[0].id == id {
        0
    } else {
        let r = find_index(entries.drop_first(), id);
        if r < 0 {
            -1
        } else {
            r + 1
        }
    }
}

pub proof fn lemma_find_index_some(entries: Seq<ProfileEntryV>, id: Seq<char>, i: int)
    requires
        0 <= i < entries.len(),
        entries[i].id == id,
        forall|k: int| 0 <= k < i ==> entries[k].id != id,
    ensures
        find_index(entries, id) == i,
    decreases i,
{
    if i > 0 {
        lemma_find_index_some(entries.drop_first(), id, i - 1);
    }
}

pub proof fn lemma_find_index_none(entries: Seq<ProfileEntryV>, id: Seq<char>)
    requires
        forall|k: int| 0 <= k < entries.len() ==> entries[k].id != id,
    ensures
        find_index(entries, id) == -1,
    decreases entries.len(),
{
    if entries.len() > 0 {
        lemma_find_index_none(entries.drop_first(), id);
    }
}

pub proof fn lemma_find_index_in_range(entries: Seq<ProfileEntryV>, id: Seq<char>)
    requires
        find_index(entries, id) >= 0,
    ensures
        find_index(entries, id) < entries.len(),
        entries[find_index(entries, id)].id == id,
        forall|k: int| 0 <= k < find_index(entries, id) ==> entries[k].id != id,
    decreases entries.len(),
{
    if entries.len() > 0 && entries[0].id != id {
        lemma_find_index_in_range(entries.drop_first(), id);
        let rest = entries.drop_first();
        let r = find_index(entries, id);
        assert(find_index(rest, id) == r - 1);
        assert(forall|k: int| 0 <= k < r - 1 ==> rest[k].id != id);
        assert(forall|k: int| 1 <= k < r ==> entries[k].id == rest[k - 1].id);
    }
}

/// Position of the entry with this id, if any.
pub fn find_profile_index(entries: &Vec<ProfileEntry>, id: &str) -> (r: Option<usize>)
    ensures
        match r {
            Some(i) => find_index(entries.deep_view(), id@) == i && i < entries@.len(),
            None => find_index(entries.deep_view(), id@) == -1,
        },
{
    let n = entries.len();
    let mut i: usize = 0;
    while i < n
        invariant
            0 <= i <= n,
            n == entries@.len(),
            forall|k: int| 0 <= k < i ==> entries.deep_view()[k].id != id@,
        decreases n - i,
    {
        let e = &entries[i];
        proof {
            assert(e@ == entries.deep_view()[i as int]);
        }
        if crate::strutil::str_eq(e.id.as_str(), id) {
            proof {
                lemma_find_index_some(entries.deep_view(), id@, i as int);
            }
            return Some(i);
        }
        i = i + 1;
    }
    proof {
        lemma_find_index_none(entries.deep_view(), id@);
    }
    None
}

/// Whether any entry (other than the excluded one, compared by id) has a
/// display name that matches `trimmed` after trimming, ignoring ASCII case.
pub open spec fn name_conflict(
    entries: Seq<ProfileEntryV>,
    trimmed: Seq<char>,
    exclude_id: Option<Seq<char>>,
) -> bool {
    exists|i: int|
        0 <= i < entries.len() && (match exclude_id {
            Some(ex) => entries[i].id != ex,
            None => true,
        }) && crate::strutil::eq_ignore_case_of(crate::strutil::trim_of(entries[i].name), trimmed)
}

/// The case- and trim-insensitive name-collision check applied before any
/// create or update mutates the registry.
pub fn check_name_conflict(
    entries: &Vec<ProfileEntry>,
    trimmed: &str,
    exclude_id: Option<&str>,
) -> (r: bool)
    ensures
        r == name_conflict(entries.deep_view(), trimmed@, exclude_id.deep_view()),
{
    let n = entries.len();
    let mut i: usize = 0;
    while i < n
        invariant
            0 <= i <= n,
            n == entries@.len(),
            forall|k: int|
                0 <= k < i ==> !((match exclude_id.deep_view() {
                    Some(ex) => entries.deep_view()[k].id != ex,
                    None => true,
                }) && crate::strutil::eq_ignore_case_of(
                    crate::strutil::trim_of(entries.deep_view()[k].name),
                    trimmed@,
                )),
        decreases n - i,
    {
        let e = &entries[i];
        proof {
            assert(e@ == entries.deep_view()[i as int]);
        }
        let excluded = match exclude_id {
            Some(ex) => crate::strutil::str_eq(e.id.as_str(), ex),
            None => false,
        };
        if !excluded {
            let t = crate::strutil::trim(e.name.as_str());
            if crate::strutil::eq_ignore_ascii_case(t, trimmed) {
                return true;
            }
        }
        i = i + 1;
    }
    false
}

/// Copies a whole registry state; the copy has the same view.
pub fn clone_state(st: &ProfilesIniState) -> (r: ProfilesIniState)
    ensures
        r@ == st@,
{
    let nb = st.backing_sections.len();
    let mut backing: Vec<IniSection> = Vec::new();
    let mut i: usize = 0;
    while i < nb
        invariant
            0 <= i <= nb,
            nb == st.backing_sections@.len(),
            backing.deep_view().len() == i,
            forall|k: int|
                0 <= k < i ==> backing.deep_view()[k] == st@.backing_sections[k],
        decreases nb - i,
    {
        let sec = &st.backing_sections[i];
        proof {
            assert(sec@ == st@.backing_sections[i as int]);
        }
        let c = clone_section(sec);
        let ghost bd0 = backing.deep_view();
        backing.push(c);
        proof {
            assert(backing.deep_view() =~= bd0.push(st@.backing_sections[i as int]));
        }
        i = i + 1;
    }
    let ne = st.profile_entries.len();
    let mut entries: Vec<ProfileEntry> = Vec::new();
    let mut j: usize = 0;
    while j < ne
        invariant
            0 <= j <= ne,
            ne == st.profile_entries@.len(),
            entries.deep_view().len() == j,
            forall|k: int|
                0 <= k < j ==> entries.deep_view()[k] == st@.profile_entries[k],
        decreases ne - j,
    {
        let e = &st.profile_entries[j];
        proof {
            assert(e@ == st@.profile_entries[j as int]);
        }
        let c = clone_entry(e);
        let ghost ed0 = entries.deep_view();
        entries.push(c);
        proof {
            assert(entries.deep_view() =~= ed0.push(st@.profile_entries[j as int]));
        }
        j = j + 1;
    }
    let r = ProfilesIniState { backing_sections: backing, profile_entries: entries };
    proof {
        assert(r@.backing_sections =~= st@.backing_sections);
        assert(r@.profile_entries =~= st@.profile_entries);
    }
    r
}

} // verus!
