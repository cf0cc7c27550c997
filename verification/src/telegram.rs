//! Messaging integration data types and the pure helpers over them: entity
//! parsing and the session file locations.

use vstd::prelude::*;

use crate::chars;

verus! {

/// API credentials for the messaging service.
#[derive(Debug, Clone)]
pub struct TelegramConfig {
    pub api_id: i32,
    pub api_hash: String,
}

/// What kind of dialog a conversation is.
#[derive(Debug, Clone, Copy, PartialEq, Eq, Structural)]
pub enum DialogType {
    User,
    Group,
    Channel,
    Bot,
}

/// One conversation.
#[derive(Debug, Clone)]
pub struct Dialog {
    pub id: i64,
    pub title: String,
    pub username: Option<String>,
    pub phone_number: Option<String>,
    pub dialog_type: DialogType,
    pub unread_messages_count: i32,
    pub can_send_message: bool,
}

/// One media item attached to a message.
#[derive(Debug, Clone)]
pub struct Media {
    pub media_id: i64,
    pub mime_type: Option<String>,
    pub file_name: Option<String>,
    pub file_size: Option<i64>,
}

/// A media item saved to disk.
#[derive(Debug, Clone)]
pub struct DownloadedMedia {
    pub path: String,
    pub media: Media,
}

/// Whether every character of `s` is a digit or a minus sign.
pub open spec fn spec_entity_chars(s: Seq<char>) -> bool {
    forall|i: int| 0 <= i < s.len() ==> (chars::spec_is_digit(#[trigger] s[i]) || s[i] == '-')
}

/// Whether an entity string parses: digits and minus signs only, in the
/// shape and range of a machine integer.
pub open spec fn spec_entity_ok(s: Seq<char>) -> bool {
    spec_entity_chars(s) && chars::valid_i64_literal(s)
}

/// Parses a numeric entity identifier: digits with an optional leading
/// minus; anything else, including an out-of-range number, comes back as
/// itself in the error.
pub fn parse_entity(entity: &str) -> (r: Result<i64, String>)
    ensures
        spec_entity_ok(entity@) ==> (r matches Ok(v) && v == chars::i64_literal_val(entity@)),
        !spec_entity_ok(entity@) ==> (r matches Err(m) && m@ == entity@),
{
    let v = chars::to_chars(entity);
    let mut i: usize = 0;
    while i < v.len()
        invariant
            v@ == entity@,
            i <= v@.len(),
            forall|j: int| 0 <= j < i ==> (chars::spec_is_digit(#[trigger] v@[j]) || v@[j] == '-'),
        decreases v@.len() - i,
    {
        if !(chars::is_digit(v[i]) || v[i] == '-') {
            return Err(entity.to_owned());
        }
        i = i + 1;
    }
    match chars::parse_i64(entity) {
        Some(n) => Ok(n),
        None => Err(entity.to_owned()),
    }
}

/// Relies on `dirs::state_dir` and `dirs::home_dir`: the platform state
/// directory, or the home directory, or the working directory, with the
/// application's folder name attached; the outcome depends on the
/// environment.
#[verifier::external_body]
fn state_dir_path() -> (r: String)
{
    let base = dirs::state_dir().unwrap_or_else(|| {
        dirs::home_dir().unwrap_or_else(|| std::path::PathBuf::from("."))
    });
    base.join("mcp-telegram").to_string_lossy().into_owned()
}

/// The session file: a `session` entry under the application's state
/// directory, wherever the environment puts that.
pub fn get_session_file() -> (r: String)
    ensures
        exists|d: Seq<char>| r@ == #[trigger] (d + "/session"@),
{
    let mut p = state_dir_path();
    let ghost d = p@;
    p.append("/session");
    proof {
        assert(p@ == d + "/session"@);
    }
    p
}

/// The downloads directory: a `downloads` entry under the application's
/// state directory, wherever the environment puts that.
pub fn get_downloads_dir() -> (r: String)
    ensures
        exists|d: Seq<char>| r@ == #[trigger] (d + "/downloads"@),
{
    let mut p = state_dir_path();
    let ghost d = p@;
    p.append("/downloads");
    proof {
        assert(p@ == d + "/downloads"@);
    }
    p
}

/// Whether `c` may stand in a public username: letters, digits and the
/// underscore.
pub open spec fn spec_username_char(c: char) -> bool {
    ('a' <= c && c <= 'z') || ('A' <= c && c <= 'Z') || chars::spec_is_digit(c) || c == '_'
}

/// Whether `s` is a non-empty username.
pub open spec fn spec_is_username(s: Seq<char>) -> bool {
    s.len() > 0 && forall|i: int| 0 <= i < s.len() ==> spec_username_char(#[trigger] s[i])
}

/// Whether `s` is a non-empty run of digits.
pub open spec fn spec_digit_run(s: Seq<char>) -> bool {
    s.len() > 0 && chars::all_digits(s)
}

/// The URL with one optional scheme removed.
pub open spec fn spec_strip_scheme(s: Seq<char>) -> Seq<char> {
    if chars::spec_starts_with(s, "https://"@) {
        s.skip("https://"@.len() as int)
    } else if chars::spec_starts_with(s, "http://"@) {
        s.skip("http://"@.len() as int)
    } else {
        s
    }
}

/// What follows an accepted host, if the host is one of the service's.
pub open spec fn spec_strip_host(s: Seq<char>) -> Option<Seq<char>> {
    if chars::spec_starts_with(s, "telegram.me/"@) {
        Some(s.skip("telegram.me/"@.len() as int))
    } else if chars::spec_starts_with(s, "t.me/"@) {
        Some(s.skip("t.me/"@.len() as int))
    } else {
        None
    }
}

/// The path with one optional trailing slash removed.
pub open spec fn spec_strip_trailing_slash(s: Seq<char>) -> Seq<char> {
    if s.len() > 0 && s.last() == '/' {
        s.drop_last()
    } else {
        s
    }
}

/// The message-link grammar: an optional scheme, one of the service hosts,
/// then either `username/message` or `c/chat/message`, with an optional
/// trailing slash. A link of any other shape is rejected; a message number
/// beyond the machine range is rejected separately.
pub open spec fn spec_parse_telegram_url(s: Seq<char>) -> Result<(Seq<char>, i32), Seq<char>> {
    match spec_strip_host(spec_strip_scheme(s)) {
        None => Err("Invalid Telegram URL format"@),
        Some(t0) => {
            let parts = chars::spec_split(spec_strip_trailing_slash(t0), '/');
            if parts.len() == 2 && spec_is_username(parts[0]) && spec_digit_run(parts[1]) {
                if chars::digits_val(parts[1]) <= 0x7fffffff {
                    Ok((parts[0], chars::digits_val(parts[1]) as i32))
                } else {
                    Err("Invalid message ID: too large"@)
                }
            } else if parts.len() == 3 && parts[0] == "c"@ && spec_digit_run(parts[1])
                && spec_digit_run(parts[2]) {
                if chars::digits_val(parts[2]) <= 0x7fffffff {
                    Ok((parts[1], chars::digits_val(parts[2]) as i32))
                } else {
                    Err("Invalid message ID: too large"@)
                }
            } else {
                Err("Invalid Telegram URL format"@)
            }
        },
    }
}

/// Executable username test matching `spec_is_username`.
fn is_username(s: &str) -> (r: bool)
    ensures
        r == spec_is_username(s@),
{
    let n = s.unicode_len();
    if n == 0 {
        return false;
    }
    let mut i: usize = 0;
    while i < n
        invariant
            n == s@.len(),
            i <= n,
            forall|j: int| 0 <= j < i ==> spec_username_char(#[trigger] s@[j]),
        decreases n - i,
    {
        let c = s.get_char(i);
        if !(('a' <= c && c <= 'z') || ('A' <= c && c <= 'Z') || chars::is_digit(c) || c == '_') {
            return false;
        }
        i = i + 1;
    }
    true
}

/// Executable digit-run test matching `spec_digit_run`.
fn is_digit_run(s: &str) -> (r: bool)
    ensures
        r == spec_digit_run(s@),
{
    let n = s.unicode_len();
    if n == 0 {
        return false;
    }
    let mut i: usize = 0;
    while i < n
        invariant
            n == s@.len(),
            i <= n,
            forall|j: int| 0 <= j < i ==> chars::spec_is_digit(#[trigger] s@[j]),
        decreases n - i,
    {
        if !chars::is_digit(s.get_char(i)) {
            return false;
        }
        i = i + 1;
    }
    true
}

/// Parses a digit run as a message number, exactly when it fits the machine
/// range.
fn parse_message_id(s: &str) -> (r: Option<i32>)
    requires
        spec_digit_run(s@),
    ensures
        chars::digits_val(s@) <= 0x7fffffff ==> r == Some(chars::digits_val(s@) as i32),
        chars::digits_val(s@) > 0x7fffffff ==> r is None,
{
    proof {
        assert(s@[0] != '-');
    }
    match chars::parse_i64(s) {
        Some(v) => {
            if v <= 0x7fffffffi64 {
                Some(v as i32)
            } else {
                None
            }
        },
        None => None,
    }
}

/// Parses a message link, matching `spec_parse_telegram_url`.
pub fn parse_telegram_url(url: &str) -> (r: Result<(String, i32), String>)
    ensures
        match r {
            Ok((entity, id)) => spec_parse_telegram_url(url@) == Ok::<(Seq<char>, i32), Seq<char>>(
                (entity@, id),
            ),
            Err(m) => spec_parse_telegram_url(url@) == Err::<(Seq<char>, i32), Seq<char>>(m@),
        },
{
    proof {
        reveal_strlit("https://");
        reveal_strlit("http://");
        reveal_strlit("telegram.me/");
        reveal_strlit("t.me/");
    }
    let n = url.unicode_len();
    let rest: String = if chars::starts_with(url, "https://") {
        let sub = url.substring_char(8, n);
        proof {
            assert(sub@ =~= url@.skip(8));
        }
        sub.to_owned()
    } else if chars::starts_with(url, "http://") {
        let sub = url.substring_char(7, n);
        proof {
            assert(sub@ =~= url@.skip(7));
        }
        sub.to_owned()
    } else {
        url.to_owned()
    };
    proof {
        assert(rest@ == spec_strip_scheme(url@));
    }
    let rn = rest.as_str().unicode_len();
    let tail0: String = if chars::starts_with(rest.as_str(), "telegram.me/") {
        let sub = rest.as_str().substring_char(12, rn);
        proof {
            assert(sub@ =~= rest@.skip(12));
        }
        sub.to_owned()
    } else if chars::starts_with(rest.as_str(), "t.me/") {
        let sub = rest.as_str().substring_char(5, rn);
        proof {
            assert(sub@ =~= rest@.skip(5));
        }
        sub.to_owned()
    } else {
        return Err("Invalid Telegram URL format".to_owned());
    };
    proof {
        assert(spec_strip_host(rest@) == Some(tail0@));
    }
    let tn = tail0.as_str().unicode_len();
    let tail: String = if tn > 0 && tail0.as_str().get_char(tn - 1) == '/' {
        let sub = tail0.as_str().substring_char(0, tn - 1);
        proof {
            assert(sub@ =~= tail0@.drop_last());
        }
        sub.to_owned()
    } else {
        tail0
    };
    proof {
        assert(tail@ == spec_strip_trailing_slash(
            (spec_strip_host(spec_strip_scheme(url@)))->Some_0,
        ));
    }
    let parts = chars::split_str(tail.as_str(), '/');
    proof {
        assert(parts.deep_view().len() == parts@.len());
    }
    if parts.len() == 2 {
        proof {
            assert(parts.deep_view()[0] == parts@[0]@);
            assert(parts.deep_view()[1] == parts@[1]@);
        }
        if is_username(parts[0].as_str()) && is_digit_run(parts[1].as_str()) {
            match parse_message_id(parts[1].as_str()) {
                Some(id) => Ok((parts[0].clone(), id)),
                None => Err("Invalid message ID: too large".to_owned()),
            }
        } else {
            Err("Invalid Telegram URL format".to_owned())
        }
    } else if parts.len() == 3 {
        proof {
            assert(parts.deep_view()[0] == parts@[0]@);
            assert(parts.deep_view()[1] == parts@[1]@);
            assert(parts.deep_view()[2] == parts@[2]@);
        }
        if chars::str_eq(parts[0].as_str(), "c") && is_digit_run(parts[1].as_str())
            && is_digit_run(parts[2].as_str()) {
            match parse_message_id(parts[2].as_str()) {
                Some(id) => Ok((parts[1].clone(), id)),
                None => Err("Invalid message ID: too large".to_owned()),
            }
        } else {
            Err("Invalid Telegram URL format".to_owned())
        }
    } else {
        Err("Invalid Telegram URL format".to_owned())
    }
}

/// The stem and extension of one path component: the part before the last
/// dot and the part after it, except that a component whose only dot leads
/// it, or which has no dot at all, is all stem.
pub open spec fn spec_stem_ext(comp: Seq<char>) -> (Seq<char>, Seq<char>) {
    let parts = chars::spec_split(comp, '.');
    if parts.len() == 1 {
        (comp, Seq::<char>::empty())
    } else {
        let stem = chars::spec_join(parts.subrange(0, parts.len() - 1), "."@);
        if stem.len() == 0 {
            (comp, Seq::<char>::empty())
        } else {
            (stem, parts.last())
        }
    }
}

/// The saved name for a media download: the original name's stem with the
/// unique marker spliced in before the extension; without an original name,
/// a stock name carrying the media identifier and an extension guessed from
/// the content type.
pub open spec fn spec_unique_filename(
    original_name: Option<&str>,
    media_id: i64,
    mime_type: Option<&str>,
    unique: Seq<char>,
) -> Seq<char> {
    match original_name {
        Some(n) => {
            match chars::spec_last_component(chars::spec_split(n@, '/')) {
                None => "download"@ + "_"@ + unique,
                Some(comp) => if comp == ".."@ {
                    "download"@ + "_"@ + unique
                } else {
                    let (stem0, ext) = spec_stem_ext(comp);
                    let stem: Seq<char> = if stem0.len() == 0 {
                        "download"@
                    } else {
                        stem0
                    };
                    if ext.len() == 0 {
                        stem + "_"@ + unique
                    } else {
                        stem + "_"@ + unique + "."@ + ext
                    }
                },
            }
        },
        None => {
            let ext: Seq<char> = match mime_type {
                Some(m) => {
                    let ps = chars::spec_split(m@, '/');
                    if ps.len() >= 2 {
                        ps[1]
                    } else {
                        "bin"@
                    }
                },
                None => "bin"@,
            };
            "download_"@ + chars::spec_int_str(media_id as int) + "_"@ + unique + "."@ + ext
        },
    }
}

/// Relies on `uuid::Uuid::new_v4` and its hyphenated text form: a freshly
/// drawn random identifier; no two calls are promised to agree. Aborts only
/// if the operating system's randomness source fails, an environmental
/// fault no input controls.
#[verifier::external_body]
fn uuid_string() -> (r: String)
{
    uuid::Uuid::new_v4().to_string()
}

/// Builds the saved name from its ingredients, matching
/// `spec_unique_filename`.
#[verifier::loop_isolation(false)]
pub fn unique_filename_with(
    original_name: Option<&str>,
    media_id: i64,
    mime_type: Option<&str>,
    unique: &str,
) -> (r: String)
    ensures
        r@ == spec_unique_filename(original_name, media_id, mime_type, unique@),
{
    match original_name {
        Some(n) => {
            let segs = chars::split_str(n, '/');
            let comp: String = match chars::last_component(&segs) {
                Some(c) => {
                    if chars::str_eq(c.as_str(), "..") {
                        let mut out = "download".to_owned();
                        out.append("_");
                        out.append(unique);
                        proof {
                            assert(out@ =~= "download"@ + "_"@ + unique@);
                        }
                        return out;
                    }
                    c
                },
                None => {
                    let mut out = "download".to_owned();
                    out.append("_");
                    out.append(unique);
                    proof {
                        assert(out@ =~= "download"@ + "_"@ + unique@);
                    }
                    return out;
                },
            };
            let parts = chars::split_str(comp.as_str(), '.');
            proof {
                chars::lemma_split_rec_nonempty(comp@, '.', Seq::empty());
                assert(parts.deep_view().len() == parts@.len());
            }
            let (stem0, ext) = if parts.len() == 1 {
                (comp.clone(), String::new())
            } else {
                let mut prefix: Vec<String> = Vec::new();
                let mut i: usize = 0;
                proof {
                    assert(prefix.deep_view() =~= parts.deep_view().subrange(
                        0,
                        parts@.len() - 1,
                    ).subrange(0, 0));
                }
                while i < parts.len() - 1
                    invariant
                        i <= parts@.len() - 1,
                        prefix.deep_view() =~= parts.deep_view().subrange(
                            0,
                            parts@.len() - 1,
                        ).subrange(0, i as int),
                    decreases parts@.len() - 1 - i,
                {
                    let ghost before = prefix.deep_view();
                    prefix.push(parts[i].clone());
                    proof {
                        assert(prefix.deep_view() =~= before.push(parts@[i as int]@));
                        assert(parts.deep_view().subrange(0, parts@.len() - 1)[i as int]
                            == parts.deep_view()[i as int]);
                        assert(prefix.deep_view() =~= parts.deep_view().subrange(
                            0,
                            parts@.len() - 1,
                        ).subrange(0, i as int + 1));
                    }
                    i = i + 1;
                }
                proof {
                    assert(parts.deep_view().subrange(0, parts@.len() - 1).subrange(
                        0,
                        i as int,
                    ) =~= parts.deep_view().subrange(0, parts@.len() - 1));
                }
                let joined = chars::join_strs(&prefix, ".");
                proof {
                    assert(parts.deep_view()[parts@.len() - 1] == parts@[parts@.len() - 1]@);
                    assert(parts.deep_view().last() == parts@[parts@.len() - 1]@);
                }
                if joined.as_str().unicode_len() == 0 {
                    (comp.clone(), String::new())
                } else {
                    (joined, parts[parts.len() - 1].clone())
                }
            };
            let stem: String = if stem0.as_str().unicode_len() == 0 {
                "download".to_owned()
            } else {
                stem0
            };
            let effective_ext: &String = &ext;
            let mut out = stem;
            out.append("_");
            out.append(unique);
            if effective_ext.as_str().unicode_len() > 0 {
                out.append(".");
                out.append(effective_ext.as_str());
                proof {
                    assert(out@ =~= spec_unique_filename(
                        original_name,
                        media_id,
                        mime_type,
                        unique@,
                    ));
                }
            } else {
                proof {
                    assert(out@ =~= spec_unique_filename(
                        original_name,
                        media_id,
                        mime_type,
                        unique@,
                    ));
                }
            }
            out
        },
        None => {
            let ext: String = match mime_type {
                Some(m) => {
                    let ps = chars::split_str(m, '/');
                    proof {
                        chars::lemma_split_rec_nonempty(m@, '/', Seq::empty());
                        assert(ps.deep_view().len() == ps@.len());
                    }
                    if ps.len() >= 2 {
                        proof {
                            assert(ps.deep_view()[1] == ps@[1]@);
                        }
                        ps[1].clone()
                    } else {
                        "bin".to_owned()
                    }
                },
                None => "bin".to_owned(),
            };
            let mut out = "download_".to_owned();
            let id_text = chars::i64_to_string(media_id);
            out.append(id_text.as_str());
            out.append("_");
            out.append(unique);
            out.append(".");
            out.append(ext.as_str());
            proof {
                assert(out@ =~= spec_unique_filename(original_name, media_id, mime_type, unique@));
            }
            out
        },
    }
}

/// The saved name for a media download, with a freshly drawn unique marker.
pub fn get_unique_filename(
    original_name: Option<&str>,
    media_id: i64,
    mime_type: Option<&str>,
) -> (r: String)
    ensures
        exists|u: Seq<char>|
            r@ == #[trigger] spec_unique_filename(original_name, media_id, mime_type, u),
{
    let unique = uuid_string();
    let ghost u = unique@;
    let out = unique_filename_with(original_name, media_id, mime_type, unique.as_str());
    proof {
        assert(out@ == spec_unique_filename(original_name, media_id, mime_type, u));
    }
    out
}

} // verus!
