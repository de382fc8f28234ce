//! Post-upload processing: which processors run, and the decisions of the
//! file-type filter and the antivirus scanner.
use vstd::prelude::*;
use crate::codec::strings_view;
use crate::config::{env_lookup, lookup, unsigned_var, var_or, vars_view};
use crate::text::{append_str, append_u64, chars_of, concat_str, find_char, find_str, find_sub, nat_text, int_text, opt_chars, opt_str_chars, parse_unsigned, rfind, rfind_char, slice_vec, split_first, split_pieces, str_eq, string_from_chars, trim, trimmed};
use crate::throttle::{to_lowercase, unicode_lowercase};
use crate::upload::Upload;

verus! {

// ---------------------------------------------------------------------------
// Lists from the environment
// ---------------------------------------------------------------------------

/// The lower-cased, trimmed, non-empty items of comma-separated `pieces`.
pub open spec fn csv_lower_items(pieces: Seq<Seq<char>>) -> Seq<Seq<char>>
    decreases pieces.len(),
{
    if pieces.len() == 0 {
        seq![]
    } else {
        let l = unicode_lowercase(trim(pieces[0]));
        if l.len() > 0 {
            seq![l] + csv_lower_items(pieces.drop_first())
        } else {
            csv_lower_items(pieces.drop_first())
        }
    }
}

/// The list a comma-separated variable holds (an unset variable holds none).
pub open spec fn csv_var(value: Option<Seq<char>>) -> Seq<Seq<char>> {
    csv_lower_items(
        split_pieces(
            match value {
                Some(v) => v,
                None => seq![],
            },
            ',',
        ),
    )
}

/// Reads a comma-separated list: items are trimmed and lower-cased, empty ones
/// dropped.
pub fn parse_csv_lower(value: Option<&str>) -> (r: Vec<String>)
    ensures
        strings_view(r@) == csv_var(opt_str_chars(value)),
{
    let mut out: Vec<String> = Vec::new();
    let mut rest: Vec<char> = match value {
        Some(v) => chars_of(v),
        None => Vec::new(),
    };
    assert(strings_view(out@) =~= Seq::<Seq<char>>::empty());
    loop
        invariant
            csv_var(opt_str_chars(value)) == strings_view(out@) + csv_lower_items(split_pieces(rest@, ',')),
        decreases rest.len(),
    {
        let (piece, next) = split_first(rest.as_slice(), ',');
        let ghost after: Seq<Seq<char>> = if next is Some {
            split_pieces(next->0@, ',')
        } else {
            Seq::empty()
        };
        let ghost pieces = seq![piece@] + after;
        proof {
            if next is None {
                assert(pieces =~= seq![piece@]);
            }
            assert(pieces[0] == piece@);
            assert(pieces.drop_first() =~= after);
        }
        let t = string_from_chars(trimmed(piece.as_slice()).as_slice());
        let l = to_lowercase(t.as_str());
        let lc = chars_of(l.as_str());
        let ghost before = strings_view(out@);
        if lc.len() > 0 {
            out.push(l);
            assert(strings_view(out@) =~= before.push(lc@));
            assert(before + (seq![lc@] + csv_lower_items(after)) =~= strings_view(out@) + csv_lower_items(after));
        }
        match next {
            None => {
                assert(csv_lower_items(after) =~= Seq::<Seq<char>>::empty());
                assert(strings_view(out@) + csv_lower_items(after) =~= strings_view(out@));
                return out;
            },
            Some(n) => {
                rest = n;
            },
        }
    }
}

fn list_contains(list: &Vec<String>, item: &str) -> (r: bool)
    ensures
        r == strings_view(list@).contains(item@),
{
    let mut i: usize = 0;
    while i < list.len()
        invariant
            i <= list.len(),
            forall|j: int| 0 <= j < i ==> #[trigger] list@[j]@ != item@,
        decreases list.len() - i,
    {
        if str_eq(list[i].as_str(), item) {
            assert(strings_view(list@)[i as int] == item@);
            return true;
        }
        i += 1;
    }
    proof {
        if strings_view(list@).contains(item@) {
            let j = choose|j: int| 0 <= j < strings_view(list@).len() && strings_view(list@)[j] == item@;
            assert(list@[j]@ == item@);
        }
    }
    false
}

// ---------------------------------------------------------------------------
// File names
// ---------------------------------------------------------------------------

/// A path piece that names something (not empty, not `.`).
pub open spec fn named_piece(p: Seq<char>) -> bool {
    p.len() > 0 && p != "."@
}

/// The last naming piece among `pieces`.
pub open spec fn last_named(pieces: Seq<Seq<char>>) -> Option<Seq<char>>
    decreases pieces.len(),
{
    if pieces.len() == 0 {
        None
    } else if named_piece(pieces.last()) {
        Some(pieces.last())
    } else {
        last_named(pieces.drop_last())
    }
}

/// `Path::file_name`: the last component of a `/`-separated path, unless it
/// is `..`.
pub open spec fn file_name_spec(path: Seq<char>) -> Option<Seq<char>> {
    match last_named(split_pieces(path, '/')) {
        Some(n) => if n == ".."@ {
            None
        } else {
            Some(n)
        },
        None => None,
    }
}

/// `Path::extension` of a file name: the text after its last dot, when that
/// dot is not the first character.
pub open spec fn extension_of_name(name: Seq<char>) -> Option<Seq<char>> {
    let i = rfind_char(name, '.');
    if i <= 0 {
        None
    } else {
        Some(name.subrange(i + 1, name.len() as int))
    }
}

/// The lower-cased extension of an upload's file name (empty when it has none).
pub open spec fn extension_spec(filename: Seq<char>) -> Seq<char> {
    unicode_lowercase(
        match file_name_spec(filename) {
            Some(n) => match extension_of_name(n) {
                Some(e) => e,
                None => seq![],
            },
            None => seq![],
        },
    )
}

fn file_name(path: &str) -> (r: Option<Vec<char>>)
    ensures
        match file_name_spec(path@) {
            Some(n) => r matches Some(v) && v@ == n,
            None => r is None,
        },
{
    let mut rest = chars_of(path);
    let mut last: Option<Vec<char>> = None;
    let ghost mut seen: Seq<Seq<char>> = seq![];
    loop
        invariant_except_break
            split_pieces(path@, '/') == seen + split_pieces(rest@, '/'),
        invariant
            match last_named(seen) {
                Some(n) => last matches Some(v) && v@ == n,
                None => last is None,
            },
        ensures
            split_pieces(path@, '/') == seen,
        decreases rest.len(),
    {
        let (piece, next) = split_first(rest.as_slice(), '/');
        let ghost after: Seq<Seq<char>> = if next is Some {
            split_pieces(next->0@, '/')
        } else {
            Seq::empty()
        };
        proof {
            if next is None {
                assert(seq![piece@] + after =~= seq![piece@]);
            }
            assert(seen + (seq![piece@] + after) =~= seen.push(piece@) + after);
            assert(seen.push(piece@).last() == piece@);
            assert(seen.push(piece@).drop_last() =~= seen);
            seen = seen.push(piece@);
        }
        let dot = chars_of(".");
        proof {
            reveal_strlit(".");
        }
        if piece.len() > 0 && !crate::text::chars_eq(piece.as_slice(), dot.as_slice()) {
            last = Some(piece);
        }
        match next {
            None => {
                assert(seen + after =~= seen);
                break;
            },
            Some(n) => {
                rest = n;
            },
        }
    }
    match last {
        None => None,
        Some(n) => {
            let dd = chars_of("..");
            proof {
                reveal_strlit("..");
            }
            if crate::text::chars_eq(n.as_slice(), dd.as_slice()) {
                None
            } else {
                Some(n)
            }
        },
    }
}

/// The lower-cased extension of a file name, as the type filter compares it.
pub fn extension(filename: &str) -> (r: String)
    ensures
        r@ == extension_spec(filename@),
{
    let raw: Vec<char> = match file_name(filename) {
        None => Vec::new(),
        Some(n) => match rfind(n.as_slice(), '.') {
            Some(i) => {
                if i == 0 {
                    Vec::new()
                } else {
                    slice_vec(n.as_slice(), i + 1, n.len())
                }
            },
            None => Vec::new(),
        },
    };
    let s = string_from_chars(raw.as_slice());
    to_lowercase(s.as_str())
}

// ---------------------------------------------------------------------------
// The file-type filter
// ---------------------------------------------------------------------------

/// Filters uploads by file extension and by the MIME type their first bytes
/// reveal.  A deny-list refuses what it names; an allow-list refuses all else.
#[derive(Debug, Clone)]
pub struct MimeFilterProcessor {
    pub allowed_mime: Vec<String>,
    pub denied_mime: Vec<String>,
    pub allowed_ext: Vec<String>,
    pub denied_ext: Vec<String>,
}

/// What `infer::get` recognises in the first bytes of a file: its MIME type.
pub uninterp spec fn infer_mime(header: Seq<u8>) -> Option<Seq<char>>;

/// `infer::get(..).mime_type()`; the answer is named by `infer_mime`.
#[verifier::external_body]
fn detect_mime(header: &[u8]) -> (r: Option<String>)
    ensures
        opt_chars(r) == infer_mime(header@),
{
    infer::get(header).map(|t| t.mime_type().to_string())
}

/// The extension check of the filter.
pub open spec fn extension_verdict(
    allowed: Seq<Seq<char>>,
    denied: Seq<Seq<char>>,
    filename: Option<Seq<char>>,
) -> Result<(), Seq<char>> {
    if allowed.len() == 0 && denied.len() == 0 {
        Ok(())
    } else {
        match filename {
            Some(f) => {
                let ext = extension_spec(f);
                if denied.contains(ext) {
                    Err("file extension '."@ + ext + "' is not allowed"@)
                } else if allowed.len() > 0 && !allowed.contains(ext) {
                    Err("file extension '."@ + ext + "' is not permitted"@)
                } else {
                    Ok(())
                }
            },
            None => if allowed.len() > 0 {
                Err("upload has no filename; extension allow-list requires a filename"@)
            } else {
                Ok(())
            },
        }
    }
}

/// The MIME check of the filter, given the type detected in the file's first
/// bytes.
pub open spec fn mime_verdict(allowed: Seq<Seq<char>>, denied: Seq<Seq<char>>, mime: Option<Seq<char>>) -> Result<
    (),
    Seq<char>,
> {
    match mime {
        Some(m) => if denied.contains(m) {
            Err("MIME type '"@ + m + "' is not allowed"@)
        } else if allowed.len() > 0 && !allowed.contains(m) {
            Err("MIME type '"@ + m + "' is not permitted"@)
        } else {
            Ok(())
        },
        None => if allowed.len() > 0 {
            Err("file type could not be determined; only specific MIME types are permitted"@)
        } else {
            Ok(())
        },
    }
}

/// The extension filter refuses a named file only for a denied extension, or
/// for one missing from a non-empty allow-list: with no allow-list, a file is
/// refused exactly when its extension is denied; with an allow-list, a file is
/// accepted exactly when its extension is allowed and not denied.  A file
/// without a name is refused only by an allow-list.
pub proof fn lemma_extension_filter(allowed: Seq<Seq<char>>, denied: Seq<Seq<char>>, filename: Option<Seq<char>>)
    ensures
        allowed.len() == 0 ==> (extension_verdict(allowed, denied, filename) is Err <==> (filename matches Some(
            f,
        ) && denied.contains(extension_spec(f)))),
        allowed.len() > 0 ==> (extension_verdict(allowed, denied, filename) is Ok <==> (filename matches Some(f)
            && allowed.contains(extension_spec(f)) && !denied.contains(extension_spec(f)))),
{
}

/// The content filter likewise: with no MIME allow-list a file is refused
/// exactly when its detected type is denied; with one, a file is accepted
/// exactly when its type was detected, is allowed and is not denied.
pub proof fn lemma_mime_filter(allowed: Seq<Seq<char>>, denied: Seq<Seq<char>>, mime: Option<Seq<char>>)
    ensures
        allowed.len() == 0 ==> (mime_verdict(allowed, denied, mime) is Err <==> (mime matches Some(m)
            && denied.contains(m))),
        allowed.len() > 0 ==> (mime_verdict(allowed, denied, mime) is Ok <==> (mime matches Some(m)
            && allowed.contains(m) && !denied.contains(m))),
{
}

/// The extension of a file name is the text after its last dot, which holds
/// no dot; a name whose only dot is its first character, or with no dot, has
/// none.
pub proof fn lemma_extension_after_last_dot(stem: Seq<char>, ext: Seq<char>, name: Seq<char>)
    ensures
        stem.len() > 0 && (forall|j: int| 0 <= j < ext.len() ==> ext[j] != '.') ==> extension_of_name(
            stem + seq!['.'] + ext,
        ) == Some(ext),
        extension_of_name(name) matches Some(e) ==> forall|j: int| 0 <= j < e.len() ==> e[j] != '.',
        (forall|j: int| 0 <= j < name.len() ==> name[j] != '.') ==> extension_of_name(name) is None,
{
    crate::text::lemma_rfind_char(name, '.');
    if forall|j: int| 0 <= j < name.len() ==> name[j] != '.' {
        if rfind_char(name, '.') >= 0 {
            assert(name[rfind_char(name, '.')] == '.');
        }
    }
    if extension_of_name(name) is Some {
        let i = rfind_char(name, '.');
        let e = name.subrange(i + 1, name.len() as int);
        assert forall|j: int| 0 <= j < e.len() implies e[j] != '.' by {
            assert(e[j] == name[i + 1 + j]);
        }
    }
    if stem.len() > 0 && (forall|j: int| 0 <= j < ext.len() ==> ext[j] != '.') {
        let n = stem + seq!['.'] + ext;
        let i = stem.len() as int;
        assert(n[i] == '.');
        assert forall|j: int| i < j < n.len() implies n[j] != '.' by {
            assert(n[j] == ext[j - i - 1]);
        }
        crate::text::lemma_rfind_char_at(n, '.', i);
        assert(n.subrange(i + 1, n.len() as int) =~= ext);
    }
}

/// A `clamscan` run passes the file exactly when it exits with 0; exit 1
/// reports malware, and any other exit a scanner error.
pub proof fn lemma_clamav_exit_codes(code: Option<i32>, stdout: Seq<char>, status: Seq<char>, stderr: Seq<char>)
    ensures
        clamav_verdict_spec(code, stdout, status, stderr) is Ok <==> code == Some(0i32),
        code == Some(1i32) ==> (clamav_verdict_spec(code, stdout, status, stderr) matches Err(m) && m.len() >= 18
            && m.subrange(0, 18) == "malware detected: "@),
        code != Some(0i32) && code != Some(1i32) ==> (clamav_verdict_spec(code, stdout, status, stderr) matches Err(m)
            && m.len() >= 20 && m.subrange(0, 20) == "AV scan error (exit "@),
{
    reveal_strlit("malware detected: ");
    reveal_strlit("AV scan error (exit ");
    if code == Some(1i32) {
        let m = clamav_verdict_spec(code, stdout, status, stderr)->Err_0;
        let threat = match found_line(split_pieces(stdout, '\n')) {
            Some(l) => trim(l),
            None => "unknown threat"@,
        };
        assert(m == "malware detected: "@ + threat);
        assert(m.subrange(0, 18) =~= "malware detected: "@);
    } else if code != Some(0i32) {
        let m = clamav_verdict_spec(code, stdout, status, stderr)->Err_0;
        assert(m == "AV scan error (exit "@ + status + "): "@ + trim(stderr));
        assert(m.subrange(0, 20) =~= "AV scan error (exit "@);
    }
}

/// A configured list holds lower-cased, trimmed, non-empty items only, and
/// lists an item per piece at most.
pub proof fn lemma_csv_items(pieces: Seq<Seq<char>>)
    ensures
        csv_lower_items(pieces).len() <= pieces.len(),
        forall|i: int| 0 <= i < csv_lower_items(pieces).len() ==> (#[trigger] csv_lower_items(pieces)[i]).len() > 0,
    decreases pieces.len(),
{
    if pieces.len() > 0 {
        lemma_csv_items(pieces.drop_first());
        let l = unicode_lowercase(trim(pieces[0]));
        if l.len() > 0 {
            assert forall|i: int| 0 <= i < csv_lower_items(pieces).len() implies (#[trigger] csv_lower_items(pieces)[i]).len() > 0 by {
                if i > 0 {
                    assert(csv_lower_items(pieces)[i] == csv_lower_items(pieces.drop_first())[i - 1]);
                }
            }
        }
    }
}

/// The pipeline is configured exactly when none of its processors has a
/// configuration error: the known processors are `nop`, `mime`, `exec` (with a
/// command) and `av`; any other name is refused.
pub proof fn lemma_processor_names(vars: Seq<(Seq<char>, Seq<char>)>, name: Seq<char>)
    ensures
        name == "nop"@ || name == "mime"@ ==> processor_error(vars, name) is None,
        name == "exec"@ ==> (processor_error(vars, name) is None <==> env_lookup(vars, "PROCESSOR_EXEC_COMMAND"@) is Some),
        name != "nop"@ && name != "mime"@ && name != "exec"@ && name != "av"@ ==> processor_error(vars, name) == Some(
            "unknown processor: "@ + name,
        ),
{
    reveal_strlit("exec");
    reveal_strlit("nop");
    reveal_strlit("mime");
    assert("exec"@ != "nop"@ && "exec"@ != "mime"@) by {
        assert("exec"@[0] != "nop"@[0]);
        assert("exec"@.len() != "mime"@.len() || "exec"@[0] != "mime"@[0]);
    }
}

impl MimeFilterProcessor {
    /// The filter configured by `MIME_ALLOW`, `MIME_DENY`, `EXT_ALLOW` and
    /// `EXT_DENY`.
    pub fn from_env(vars: &Vec<(String, String)>) -> (p: MimeFilterProcessor)
        ensures
            strings_view(p.allowed_mime@) == csv_var(env_lookup(vars_view(vars@), "MIME_ALLOW"@)),
            strings_view(p.denied_mime@) == csv_var(env_lookup(vars_view(vars@), "MIME_DENY"@)),
            strings_view(p.allowed_ext@) == csv_var(env_lookup(vars_view(vars@), "EXT_ALLOW"@)),
            strings_view(p.denied_ext@) == csv_var(env_lookup(vars_view(vars@), "EXT_DENY"@)),
    {
        let a = lookup(vars, "MIME_ALLOW");
        let b = lookup(vars, "MIME_DENY");
        let c = lookup(vars, "EXT_ALLOW");
        let d = lookup(vars, "EXT_DENY");
        MimeFilterProcessor {
            allowed_mime: parse_csv_lower(crate::text::opt_as_str(&a)),
            denied_mime: parse_csv_lower(crate::text::opt_as_str(&b)),
            allowed_ext: parse_csv_lower(crate::text::opt_as_str(&c)),
            denied_ext: parse_csv_lower(crate::text::opt_as_str(&d)),
        }
    }

    /// Whether the filter looks at file contents (a MIME list is configured).
    pub fn checks_content(&self) -> (r: bool)
        ensures
            r == (self.allowed_mime.len() > 0 || self.denied_mime.len() > 0),
    {
        self.allowed_mime.len() > 0 || self.denied_mime.len() > 0
    }

    /// The extension check, on the upload's file name.
    pub fn check_extension(&self, filename: Option<&str>) -> (r: Result<(), String>)
        ensures
            match extension_verdict(strings_view(self.allowed_ext@), strings_view(self.denied_ext@), opt_str_chars(filename)) {
                Ok(()) => r is Ok,
                Err(m) => r matches Err(x) && x@ == m,
            },
    {
        if self.allowed_ext.len() == 0 && self.denied_ext.len() == 0 {
            return Ok(());
        }
        match filename {
            Some(f) => {
                let ext = extension(f);
                if list_contains(&self.denied_ext, ext.as_str()) {
                    let mut m = "file extension '.".to_owned();
                    append_str(&mut m, ext.as_str());
                    append_str(&mut m, "' is not allowed");
                    return Err(m);
                }
                if self.allowed_ext.len() > 0 && !list_contains(&self.allowed_ext, ext.as_str()) {
                    let mut m = "file extension '.".to_owned();
                    append_str(&mut m, ext.as_str());
                    append_str(&mut m, "' is not permitted");
                    return Err(m);
                }
                Ok(())
            },
            None => {
                if self.allowed_ext.len() > 0 {
                    Err("upload has no filename; extension allow-list requires a filename".to_owned())
                } else {
                    Ok(())
                }
            },
        }
    }

    /// The MIME check, on the first bytes of the file (up to 8 KiB).
    pub fn check_content(&self, header: &[u8]) -> (r: Result<(), String>)
        ensures
            !(self.allowed_mime.len() > 0 || self.denied_mime.len() > 0) ==> r is Ok,
            (self.allowed_mime.len() > 0 || self.denied_mime.len() > 0) ==> match mime_verdict(
                strings_view(self.allowed_mime@),
                strings_view(self.denied_mime@),
                infer_mime(header@),
            ) {
                Ok(()) => r is Ok,
                Err(m) => r matches Err(x) && x@ == m,
            },
    {
        if !self.checks_content() {
            return Ok(());
        }
        match detect_mime(header) {
            Some(mime) => {
                if list_contains(&self.denied_mime, mime.as_str()) {
                    let mut m = "MIME type '".to_owned();
                    append_str(&mut m, mime.as_str());
                    append_str(&mut m, "' is not allowed");
                    return Err(m);
                }
                if self.allowed_mime.len() > 0 && !list_contains(&self.allowed_mime, mime.as_str()) {
                    let mut m = "MIME type '".to_owned();
                    append_str(&mut m, mime.as_str());
                    append_str(&mut m, "' is not permitted");
                    return Err(m);
                }
                Ok(())
            },
            None => {
                if self.allowed_mime.len() > 0 {
                    Err("file type could not be determined; only specific MIME types are permitted".to_owned())
                } else {
                    Ok(())
                }
            },
        }
    }
}

// ---------------------------------------------------------------------------
// The antivirus scanner
// ---------------------------------------------------------------------------

/// How files are scanned: by running `clamscan`, or by posting them to an
/// HTTP scanner (with an optional extra header, refusing larger files).
#[derive(Debug, Clone)]
pub enum ScanMode {
    ClamAv { bin: String },
    Http { url: String, header: Option<(String, String)>, max_bytes: u64 },
}

/// Scans processed files for malware.
#[derive(Debug, Clone)]
pub struct AvScanProcessor {
    pub mode: ScanMode,
    pub timeout_secs: u64,
}

/// `AV_HTTP_HEADER` split at its first colon, both sides trimmed.
pub open spec fn header_pair_spec(h: Seq<char>) -> Option<(Seq<char>, Seq<char>)> {
    let i = find_char(h, ':');
    if i < 0 {
        None
    } else {
        Some((trim(h.subrange(0, i)), trim(h.subrange(i + 1, h.len() as int))))
    }
}

/// The scanner kind asked for: `AV_SCANNER` lower-cased, `clamav` by default.
pub open spec fn scanner_kind(vars: Seq<(Seq<char>, Seq<char>)>) -> Seq<char> {
    unicode_lowercase(var_or(vars, "AV_SCANNER"@, "clamav"@))
}

/// Why the scanner cannot be configured, if it cannot.
pub open spec fn av_config_error(vars: Seq<(Seq<char>, Seq<char>)>) -> Option<Seq<char>> {
    let k = scanner_kind(vars);
    if k == "clamav"@ {
        None
    } else if k == "http"@ {
        if env_lookup(vars, "AV_HTTP_URL"@) is None {
            Some("AV_HTTP_URL required when AV_SCANNER=http"@)
        } else {
            None
        }
    } else {
        Some("unknown AV_SCANNER '"@ + k + "'; expected 'clamav' or 'http'"@)
    }
}

fn header_pair(h: &str) -> (r: Option<(String, String)>)
    ensures
        match header_pair_spec(h@) {
            Some((a, b)) => r matches Some((x, y)) && x@ == a && y@ == b,
            None => r is None,
        },
{
    let cs = chars_of(h);
    match crate::text::find(cs.as_slice(), ':') {
        None => None,
        Some(i) => {
            let a = trimmed(slice_vec(cs.as_slice(), 0, i).as_slice());
            let b = trimmed(slice_vec(cs.as_slice(), i + 1, cs.len()).as_slice());
            Some((string_from_chars(a.as_slice()), string_from_chars(b.as_slice())))
        },
    }
}

impl AvScanProcessor {
    /// The scanner configured by `AV_SCANNER`, `AV_TIMEOUT_SECS`,
    /// `AV_CLAMAV_BIN`, `AV_HTTP_URL`, `AV_HTTP_HEADER` and `AV_HTTP_MAX_BYTES`.
    pub fn from_env(vars: &Vec<(String, String)>) -> (r: Result<AvScanProcessor, String>)
        ensures
            match av_config_error(vars_view(vars@)) {
                Some(e) => r matches Err(m) && m@ == e,
                None => r is Ok,
            },
            r matches Ok(p) ==> p.timeout_secs as nat == unsigned_var(vars_view(vars@), "AV_TIMEOUT_SECS"@, u64::MAX as nat, 120),
            r matches Ok(p) ==> match p.mode {
                ScanMode::ClamAv { bin } => scanner_kind(vars_view(vars@)) == "clamav"@
                    && bin@ == var_or(vars_view(vars@), "AV_CLAMAV_BIN"@, "clamscan"@),
                ScanMode::Http { url, header, max_bytes } => scanner_kind(vars_view(vars@)) == "http"@
                    && env_lookup(vars_view(vars@), "AV_HTTP_URL"@) == Some(url@)
                    && max_bytes as nat == unsigned_var(vars_view(vars@), "AV_HTTP_MAX_BYTES"@, u64::MAX as nat, 104_857_600)
                    && match env_lookup(vars_view(vars@), "AV_HTTP_HEADER"@) {
                        Some(h) => match header_pair_spec(h) {
                            Some((a, b)) => header matches Some((x, y)) && x@ == a && y@ == b,
                            None => header is None,
                        },
                        None => header is None,
                    },
            },
    {
        let timeout_secs = match lookup(vars, "AV_TIMEOUT_SECS") {
            Some(v) => match parse_unsigned(chars_of(v.as_str()).as_slice(), u64::MAX) {
                Some(n) => n,
                None => 120,
            },
            None => 120,
        };
        let kind_raw = match lookup(vars, "AV_SCANNER") {
            Some(v) => v,
            None => "clamav".to_owned(),
        };
        let kind = to_lowercase(kind_raw.as_str());
        if str_eq(kind.as_str(), "clamav") {
            let bin = match lookup(vars, "AV_CLAMAV_BIN") {
                Some(b) => b,
                None => "clamscan".to_owned(),
            };
            return Ok(AvScanProcessor { mode: ScanMode::ClamAv { bin }, timeout_secs });
        }
        if str_eq(kind.as_str(), "http") {
            let url = match lookup(vars, "AV_HTTP_URL") {
                Some(u) => u,
                None => {
                    return Err("AV_HTTP_URL required when AV_SCANNER=http".to_owned());
                },
            };
            let header = match lookup(vars, "AV_HTTP_HEADER") {
                Some(h) => header_pair(h.as_str()),
                None => None,
            };
            let max_bytes = match lookup(vars, "AV_HTTP_MAX_BYTES") {
                Some(v) => match parse_unsigned(chars_of(v.as_str()).as_slice(), u64::MAX) {
                    Some(n) => n,
                    None => 104_857_600,
                },
                None => 104_857_600,
            };
            return Ok(AvScanProcessor { mode: ScanMode::Http { url, header, max_bytes }, timeout_secs });
        }
        let mut m = "unknown AV_SCANNER '".to_owned();
        append_str(&mut m, kind.as_str());
        append_str(&mut m, "'; expected 'clamav' or 'http'");
        Err(m)
    }
}

/// The first of `lines` that mentions `FOUND`.
pub open spec fn found_line(lines: Seq<Seq<char>>) -> Option<Seq<char>>
    decreases lines.len(),
{
    if lines.len() == 0 {
        None
    } else if find_sub(lines[0], "FOUND"@) >= 0 {
        Some(lines[0])
    } else {
        found_line(lines.drop_first())
    }
}

/// What a `clamscan` run means: exit 0 is clean; exit 1 is a detection,
/// reported by the (trimmed) output line that says `FOUND`; anything else is a
/// scanner failure, reported with the exit status and the trimmed error output.
pub open spec fn clamav_verdict_spec(code: Option<i32>, stdout: Seq<char>, status: Seq<char>, stderr: Seq<char>) -> Result<
    (),
    Seq<char>,
> {
    if code == Some(0i32) {
        Ok(())
    } else if code == Some(1i32) {
        let threat = match found_line(split_pieces(stdout, '\n')) {
            Some(l) => trim(l),
            None => "unknown threat"@,
        };
        Err("malware detected: "@ + threat)
    } else {
        Err("AV scan error (exit "@ + status + "): "@ + trim(stderr))
    }
}

fn first_found_line(text: &[char]) -> (r: Option<Vec<char>>)
    ensures
        match found_line(split_pieces(text@, '\n')) {
            Some(l) => r matches Some(v) && v@ == l,
            None => r is None,
        },
{
    let needle = chars_of("FOUND");
    let mut rest = slice_vec(text, 0, text.len());
    assert(rest@ =~= text@);
    loop
        invariant
            needle@ == "FOUND"@,
            found_line(split_pieces(text@, '\n')) == found_line(split_pieces(rest@, '\n')),
        decreases rest.len(),
    {
        let (piece, next) = split_first(rest.as_slice(), '\n');
        let ghost after: Seq<Seq<char>> = if next is Some {
            split_pieces(next->0@, '\n')
        } else {
            Seq::empty()
        };
        let ghost pieces = seq![piece@] + after;
        proof {
            if next is None {
                assert(pieces =~= seq![piece@]);
            }
            assert(pieces[0] == piece@);
            assert(pieces.drop_first() =~= after);
        }
        if find_str(piece.as_slice(), needle.as_slice()).is_some() {
            return Some(piece);
        }
        match next {
            None => {
                assert(found_line(after) is None);
                return None;
            },
            Some(n) => {
                rest = n;
            },
        }
    }
}

/// Interprets a finished `clamscan` run (its exit code, its output decoded
/// lossily, and the text of its exit status).
pub fn clamav_verdict(code: Option<i32>, stdout: &[u8], status: &str, stderr: &[u8]) -> (r: Result<(), String>)
    ensures
        match clamav_verdict_spec(code, crate::codec::utf8_lossy(stdout@), status@, crate::codec::utf8_lossy(stderr@)) {
            Ok(()) => r is Ok,
            Err(m) => r matches Err(x) && x@ == m,
        },
{
    if code == Some(0i32) {
        return Ok(());
    }
    if code == Some(1i32) {
        let out = crate::codec::from_utf8_lossy(stdout);
        let threat: Vec<char> = match first_found_line(chars_of(out.as_str()).as_slice()) {
            Some(l) => trimmed(l.as_slice()),
            None => chars_of("unknown threat"),
        };
        let mut m = "malware detected: ".to_owned();
        append_str(&mut m, string_from_chars(threat.as_slice()).as_str());
        return Err(m);
    }
    let err = crate::codec::from_utf8_lossy(stderr);
    let mut m = "AV scan error (exit ".to_owned();
    append_str(&mut m, status);
    append_str(&mut m, "): ");
    append_str(&mut m, string_from_chars(trimmed(chars_of(err.as_str()).as_slice()).as_slice()).as_str());
    Err(m)
}

/// The HTTP scanner refuses files larger than its limit before sending them.
pub fn http_scan_size_check(file_size: u64, max_bytes: u64) -> (r: Result<(), String>)
    ensures
        file_size <= max_bytes ==> r is Ok,
        file_size > max_bytes ==> (r matches Err(m) && m@ == "file ("@ + nat_text(file_size as nat)
            + " bytes) exceeds AV_HTTP_MAX_BYTES limit ("@ + nat_text(max_bytes as nat)
            + "); use AV_SCANNER=clamav for large files"@),
{
    if file_size <= max_bytes {
        return Ok(());
    }
    let mut m = "file (".to_owned();
    append_u64(&mut m, file_size);
    append_str(&mut m, " bytes) exceeds AV_HTTP_MAX_BYTES limit (");
    append_u64(&mut m, max_bytes);
    append_str(&mut m, "); use AV_SCANNER=clamav for large files");
    Err(m)
}

/// What the HTTP scanner's answer means: a 2xx status passes the file; any
/// other is a rejection, reported with the status and the trimmed body.
pub fn http_scan_verdict(status: u16, status_text: &str, body: &str) -> (r: Result<(), String>)
    ensures
        200 <= status <= 299 ==> r is Ok,
        !(200 <= status <= 299) ==> (r matches Err(m) && m@ == "AV scan rejected file (HTTP "@ + status_text@ + "): "@ + trim(body@)),
{
    if 200 <= status && status <= 299 {
        return Ok(());
    }
    let mut m = "AV scan rejected file (HTTP ".to_owned();
    append_str(&mut m, status_text);
    append_str(&mut m, "): ");
    append_str(&mut m, string_from_chars(trimmed(chars_of(body).as_slice()).as_slice()).as_str());
    Err(m)
}

/// The error of a scan that ran out of time.
pub fn scan_timeout_message(http: bool, timeout_secs: u64) -> (r: String)
    ensures
        r@ == (if http { "AV HTTP scan timed out after "@ } else { "AV scan timed out after "@ })
            + nat_text(timeout_secs as nat) + "s"@,
{
    let mut m = if http {
        "AV HTTP scan timed out after ".to_owned()
    } else {
        "AV scan timed out after ".to_owned()
    };
    append_u64(&mut m, timeout_secs);
    append_str(&mut m, "s");
    m
}

// ---------------------------------------------------------------------------
// Processors and the pipeline
// ---------------------------------------------------------------------------

/// What a processor is run on: the upload, and where its file is.
#[derive(Debug, Clone)]
pub struct ProcessorContext {
    pub upload_id: String,
    pub file_path: String,
    pub upload: Upload,
}

/// A step of post-upload processing.
pub trait Processor {
    /// The processor's name, as configured in `PROCESSORS`.
    fn name(&self) -> String;
}

/// A processor that accepts every file.
#[derive(Debug, Clone, Copy)]
pub struct NopProcessor;

/// A processor that runs a shell command on the file.
#[derive(Debug, Clone)]
pub struct ExecProcessor {
    pub command: String,
    pub timeout_secs: u64,
}

impl Processor for NopProcessor {
    fn name(&self) -> (r: String)
        ensures
            r@ == "nop"@,
    {
        "nop".to_owned()
    }
}

impl Processor for ExecProcessor {
    fn name(&self) -> (r: String)
        ensures
            r@ == "exec"@,
    {
        "exec".to_owned()
    }
}

impl Processor for MimeFilterProcessor {
    fn name(&self) -> (r: String)
        ensures
            r@ == "mime"@,
    {
        "mime".to_owned()
    }
}

impl Processor for AvScanProcessor {
    fn name(&self) -> (r: String)
        ensures
            r@ == "av"@,
    {
        "av".to_owned()
    }
}

impl ExecProcessor {
    /// The environment the command runs with: the upload's id, the file's
    /// path, its name (empty when unknown), its size, and its metadata JSON
    /// (`{}` when there is none).
    pub fn command_env(ctx: &ProcessorContext) -> (r: Vec<(String, String)>)
        ensures
            r.len() == 5,
            r@[0].0@ == "UPLOAD_ID"@ && r@[0].1@ == ctx.upload_id@,
            r@[1].0@ == "FILE_PATH"@ && r@[1].1@ == ctx.file_path@,
            r@[2].0@ == "FILENAME"@ && r@[2].1@ == (match ctx.upload.filename {
                Some(f) => f@,
                None => ""@,
            }),
            r@[3].0@ == "UPLOAD_SIZE"@ && r@[3].1@ == int_text(ctx.upload.upload_length as int),
            r@[4].0@ == "METADATA_JSON"@ && r@[4].1@ == (match ctx.upload.metadata_json {
                Some(m) => m@,
                None => "{}"@,
            }),
    {
        let mut v: Vec<(String, String)> = Vec::new();
        v.push(("UPLOAD_ID".to_owned(), ctx.upload_id.as_str().to_owned()));
        v.push(("FILE_PATH".to_owned(), ctx.file_path.as_str().to_owned()));
        let name = match &ctx.upload.filename {
            Some(f) => f.as_str().to_owned(),
            None => "".to_owned(),
        };
        v.push(("FILENAME".to_owned(), name));
        v.push(("UPLOAD_SIZE".to_owned(), crate::text::i64_to_string(ctx.upload.upload_length)));
        let meta = match &ctx.upload.metadata_json {
            Some(m) => m.as_str().to_owned(),
            None => "{}".to_owned(),
        };
        v.push(("METADATA_JSON".to_owned(), meta));
        v
    }

    /// The error of a command that failed: its exit status and trimmed error
    /// output.
    pub fn failure_message(status_text: &str, stderr: &[u8]) -> (r: String)
        ensures
            r@ == "exec processor exited with "@ + status_text@ + ": "@ + trim(crate::codec::utf8_lossy(stderr@)),
    {
        let err = crate::codec::from_utf8_lossy(stderr);
        let mut m = "exec processor exited with ".to_owned();
        append_str(&mut m, status_text);
        append_str(&mut m, ": ");
        append_str(&mut m, string_from_chars(trimmed(chars_of(err.as_str()).as_slice()).as_slice()).as_str());
        m
    }

    /// The error of a command that ran out of time.
    pub fn timeout_message(&self) -> (r: String)
        ensures
            r@ == "exec processor timed out after "@ + nat_text(self.timeout_secs as nat) + "s"@,
    {
        let mut m = "exec processor timed out after ".to_owned();
        append_u64(&mut m, self.timeout_secs);
        append_str(&mut m, "s");
        m
    }
}

/// A configured processor.
#[derive(Debug, Clone)]
pub enum ProcessorKind {
    Nop(NopProcessor),
    Exec(ExecProcessor),
    Mime(MimeFilterProcessor),
    Av(AvScanProcessor),
}

/// The name a configured processor answers to.
pub open spec fn kind_name(k: ProcessorKind) -> Seq<char> {
    match k {
        ProcessorKind::Nop(_) => "nop"@,
        ProcessorKind::Exec(_) => "exec"@,
        ProcessorKind::Mime(_) => "mime"@,
        ProcessorKind::Av(_) => "av"@,
    }
}

/// The trimmed, non-empty names of comma-separated `pieces`.
pub open spec fn name_items(pieces: Seq<Seq<char>>) -> Seq<Seq<char>>
    decreases pieces.len(),
{
    if pieces.len() == 0 {
        seq![]
    } else if trim(pieces[0]).len() > 0 {
        seq![trim(pieces[0])] + name_items(pieces.drop_first())
    } else {
        name_items(pieces.drop_first())
    }
}

/// The processor names of `PROCESSORS` (`nop` when unset), in order.
pub open spec fn pipeline_names(vars: Seq<(Seq<char>, Seq<char>)>) -> Seq<Seq<char>> {
    name_items(split_pieces(var_or(vars, "PROCESSORS"@, "nop"@), ','))
}

/// Why processor `name` cannot be configured, if it cannot.
pub open spec fn processor_error(vars: Seq<(Seq<char>, Seq<char>)>, name: Seq<char>) -> Option<Seq<char>> {
    if name == "nop"@ || name == "mime"@ {
        None
    } else if name == "exec"@ {
        if env_lookup(vars, "PROCESSOR_EXEC_COMMAND"@) is None {
            Some("PROCESSOR_EXEC_COMMAND required when 'exec' processor is configured"@)
        } else {
            None
        }
    } else if name == "av"@ {
        av_config_error(vars)
    } else {
        Some("unknown processor: "@ + name)
    }
}

/// The first configuration error among `names`, in order.
pub open spec fn first_processor_error(vars: Seq<(Seq<char>, Seq<char>)>, names: Seq<Seq<char>>) -> Option<Seq<char>>
    decreases names.len(),
{
    if names.len() == 0 {
        None
    } else {
        match processor_error(vars, names[0]) {
            Some(e) => Some(e),
            None => first_processor_error(vars, names.drop_first()),
        }
    }
}

/// The processors an upload goes through once it is complete, in order.
#[derive(Debug, Clone)]
pub struct ProcessorPipeline {
    pub processors: Vec<ProcessorKind>,
}

proof fn lemma_first_error_split(vars: Seq<(Seq<char>, Seq<char>)>, a: Seq<Seq<char>>, b: Seq<Seq<char>>)
    requires
        first_processor_error(vars, a) is None,
    ensures
        first_processor_error(vars, a + b) == first_processor_error(vars, b),
    decreases a.len(),
{
    if a.len() > 0 {
        assert((a + b).drop_first() =~= a.drop_first() + b);
        assert((a + b)[0] == a[0]);
        lemma_first_error_split(vars, a.drop_first(), b);
    } else {
        assert(a + b =~= b);
    }
}

proof fn lemma_first_error_push(vars: Seq<(Seq<char>, Seq<char>)>, a: Seq<Seq<char>>, n: Seq<char>)
    requires
        first_processor_error(vars, a) is None,
        processor_error(vars, n) is None,
    ensures
        first_processor_error(vars, a.push(n)) is None,
    decreases a.len(),
{
    if a.len() > 0 {
        assert(a.push(n).drop_first() =~= a.drop_first().push(n));
        assert(a.push(n)[0] == a[0]);
        lemma_first_error_push(vars, a.drop_first(), n);
    } else {
        assert(a.push(n).drop_first() =~= Seq::<Seq<char>>::empty());
        assert(first_processor_error(vars, Seq::<Seq<char>>::empty()) is None);
    }
}

impl ProcessorPipeline {
    /// The pipeline configured by `PROCESSORS`: each name in order becomes its
    /// processor; the first name that cannot be configured is the error.
    pub fn from_env(vars: &Vec<(String, String)>) -> (r: Result<ProcessorPipeline, String>)
        ensures
            match first_processor_error(vars_view(vars@), pipeline_names(vars_view(vars@))) {
                Some(e) => r matches Err(m) && m@ == e,
                None => r matches Ok(p) && p.processors.len() == pipeline_names(vars_view(vars@)).len()
                    && forall|i: int| 0 <= i < p.processors.len() ==> #[trigger] kind_name(p.processors@[i]) == pipeline_names(vars_view(vars@))[i],
            },
    {
        let ghost vv = vars_view(vars@);
        proof {
            reveal_strlit("nop");
            reveal_strlit("mime");
            reveal_strlit("exec");
            reveal_strlit("av");
        }
        let names = match lookup(vars, "PROCESSORS") {
            Some(v) => v,
            None => "nop".to_owned(),
        };
        let mut out: Vec<ProcessorKind> = Vec::new();
        let mut rest = chars_of(names.as_str());
        let ghost mut done: Seq<Seq<char>> = seq![];
        loop
            invariant
                vv == vars_view(vars@),
                pipeline_names(vv) == done + name_items(split_pieces(rest@, ',')),
                first_processor_error(vv, done) is None,
                out.len() == done.len(),
                forall|i: int| 0 <= i < out.len() ==> #[trigger] kind_name(out@[i]) == done[i],
            decreases rest.len(),
        {
            let (piece, next) = split_first(rest.as_slice(), ',');
            let ghost after: Seq<Seq<char>> = if next is Some {
                split_pieces(next->0@, ',')
            } else {
                Seq::empty()
            };
            let ghost pieces = seq![piece@] + after;
            proof {
                if next is None {
                    assert(pieces =~= seq![piece@]);
                }
                assert(pieces[0] == piece@);
                assert(pieces.drop_first() =~= after);
            }
            let t = trimmed(piece.as_slice());
            if t.len() > 0 {
                let ghost n = t@;
                assert(done + (seq![n] + name_items(after)) =~= done.push(n) + name_items(after));
                let name = string_from_chars(t.as_slice());
                proof {
                    reveal_strlit("nop");
                    reveal_strlit("mime");
                    reveal_strlit("exec");
                    reveal_strlit("av");
                    assert("exec"@[0] != "mime"@[0]);
                    lemma_first_error_split(vv, done, seq![n] + name_items(after));
                    assert((seq![n] + name_items(after))[0] == n);
                }
                let kind = if str_eq(name.as_str(), "nop") {
                    ProcessorKind::Nop(NopProcessor)
                } else if str_eq(name.as_str(), "exec") {
                    let command = match lookup(vars, "PROCESSOR_EXEC_COMMAND") {
                        Some(c) => c,
                        None => {
                            return Err("PROCESSOR_EXEC_COMMAND required when 'exec' processor is configured".to_owned());
                        },
                    };
                    let timeout_secs = match lookup(vars, "PROCESSOR_EXEC_TIMEOUT_SECS") {
                        Some(v) => match parse_unsigned(chars_of(v.as_str()).as_slice(), u64::MAX) {
                            Some(x) => x,
                            None => 300,
                        },
                        None => 300,
                    };
                    ProcessorKind::Exec(ExecProcessor { command, timeout_secs })
                } else if str_eq(name.as_str(), "mime") {
                    ProcessorKind::Mime(MimeFilterProcessor::from_env(vars))
                } else if str_eq(name.as_str(), "av") {
                    match AvScanProcessor::from_env(vars) {
                        Ok(p) => ProcessorKind::Av(p),
                        Err(e) => {
                            return Err(e);
                        },
                    }
                } else {
                    return Err(concat_str("unknown processor: ", name.as_str()));
                };
                proof {
                    lemma_first_error_push(vv, done, n);
                    done = done.push(n);
                }
                out.push(kind);
            } else {
                assert(done + (seq![piece@] + after).drop_first() =~= done + after);
            }
            match next {
                None => {
                    assert(name_items(after) =~= Seq::<Seq<char>>::empty());
                    assert(done + name_items(after) =~= done);
                    return Ok(ProcessorPipeline { processors: out });
                },
                Some(nx) => {
                    rest = nx;
                },
            }
        }
    }
}

/// What the pipeline does next: run the processor at this position, finish,
/// or stop with a processor's error (the upload then fails processing).
#[derive(Debug, Clone, PartialEq, Eq)]
pub enum PipelineStep {
    Run(usize),
    Done,
    Failed(String),
}

/// The first step of a pipeline of `n` processors: the first processor, or
/// done at once when there is none.
pub fn pipeline_start(n: usize) -> (s: PipelineStep)
    ensures
        s == (if n == 0 {
            PipelineStep::Done
        } else {
            PipelineStep::Run(0)
        }),
{
    if n == 0 {
        PipelineStep::Done
    } else {
        PipelineStep::Run(0)
    }
}

/// The step after processor `i` of `n` finished with `outcome`: processors run
/// in order, and the first failure stops the pipeline with its error.
pub fn pipeline_next(i: usize, n: usize, outcome: Result<(), String>) -> (s: PipelineStep)
    requires
        i < n,
    ensures
        match outcome {
            Err(e) => s == PipelineStep::Failed(e),
            Ok(()) => if i + 1 < n {
                s == PipelineStep::Run((i + 1) as usize)
            } else {
                s == PipelineStep::Done
            },
        },
{
    match outcome {
        Err(e) => PipelineStep::Failed(e),
        Ok(()) => {
            if i + 1 < n {
                PipelineStep::Run(i + 1)
            } else {
                PipelineStep::Done
            }
        },
    }
}

} // verus!
