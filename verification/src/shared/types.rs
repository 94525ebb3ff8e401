//! Validated identifiers, clone sources and relative paths.
use vstd::prelude::*;

use crate::shared::error::{Error, ValidationError};
use crate::shared::text::{
    Separator, append_str, chars_eq_str, chars_of, has_prefix, push_char, split_on, split_ranges,
    starts_with_str, string_from_chars,
};

verus! {

// ---------------------------------------------------------------------------
// Slugs
// ---------------------------------------------------------------------------

/// First character of a slug: `[a-z0-9_]`.
pub open spec fn is_slug_head(c: char) -> bool {
    ('a' <= c && c <= 'z') || ('0' <= c && c <= '9') || c == '_'
}

/// Later characters of a slug: `[a-z0-9_-]`.
pub open spec fn is_slug_tail(c: char) -> bool {
    is_slug_head(c) || c == '-'
}

/// `[a-z0-9_][a-z0-9_-]*`
pub open spec fn is_slug(s: Seq<char>) -> bool {
    &&& s.len() > 0
    &&& is_slug_head(s[0])
    &&& forall|i: int| 1 <= i < s.len() ==> #[trigger] is_slug_tail(s[i])
}

/// A slug is exactly a non-empty text whose first character is a lower-case
/// ASCII letter, an ASCII digit or `_`, and whose later characters are those
/// or `-`: a leading digit is accepted, a leading `-` is not.
pub proof fn law_slug_characters(s: Seq<char>)
    ensures
        is_slug(s) <==> (s.len() > 0 && (('a' <= s[0] && s[0] <= 'z') || ('0' <= s[0] && s[0] <= '9')
            || s[0] == '_') && forall|i: int|
            1 <= i < s.len() ==> (('a' <= #[trigger] s[i] && s[i] <= 'z') || ('0' <= s[i] && s[i] <= '9')
                || s[i] == '_' || s[i] == '-')),
{
    assert forall|i: int| 1 <= i < s.len() implies (is_slug_tail(#[trigger] s[i]) <==> (('a' <= s[i] && s[i]
        <= 'z') || ('0' <= s[i] && s[i] <= '9') || s[i] == '_' || s[i] == '-')) by {}
}

pub open spec fn invalid_slug_error(e: Error, label: Seq<char>, value: Seq<char>) -> bool {
    e matches Error::Validation(ValidationError::InvalidSlug { label: l, value: v }) && l@ == label
        && v@ == value
}

/// Checks that `value` is a slug; the error names `label` and `value`.
pub fn validate_slug(value: &str, label: &str) -> (r: Result<(), Error>)
    ensures
        r is Ok <==> is_slug(value@),
        r matches Err(e) ==> invalid_slug_error(e, label@, value@),
{
    let v = chars_of(value);
    let mut valid = v.len() > 0;
    if valid {
        let c = v[0];
        valid = ('a' <= c && c <= 'z') || ('0' <= c && c <= '9') || c == '_';
    }
    assert(v@ == value@);
    let mut i: usize = 1;
    while valid && i < v.len()
        invariant
            v@ == value@,
            1 <= i,
            valid ==> i <= v.len(),
            valid ==> v.len() > 0 && is_slug_head(v@[0]),
            valid ==> forall|j: int| 1 <= j < i ==> #[trigger] is_slug_tail(v@[j]),
            !valid ==> !is_slug(value@),
        decreases v.len() - i,
    {
        let c = v[i];
        if !(('a' <= c && c <= 'z') || ('0' <= c && c <= '9') || c == '_' || c == '-') {
            valid = false;
            proof {
                assert(!is_slug_tail(value@[i as int]));
            }
        }
        i = i + 1;
    }
    if valid {
        Ok(())
    } else {
        Err(
            Error::Validation(
                ValidationError::InvalidSlug { label: label.to_owned(), value: value.to_owned() },
            ),
        )
    }
}

/// Validated repository identifier (slug: `[a-z0-9_-]+`).
#[derive(Debug)]
pub struct RepoId {
    value: String,
}

impl View for RepoId {
    type V = Seq<char>;

    closed spec fn view(&self) -> Seq<char> {
        self.value@
    }
}

impl RepoId {
    #[verifier::type_invariant]
    spec fn inv(&self) -> bool {
        is_slug(self.value@)
    }

    /// Accepts exactly the slugs; the error is labelled `repo id`.
    pub fn new(value: &str) -> (r: Result<RepoId, Error>)
        ensures
            r is Ok <==> is_slug(value@),
            r matches Ok(id) ==> id@ == value@,
            r matches Err(e) ==> invalid_slug_error(e, "repo id"@, value@),
    {
        validate_slug(value, "repo id")?;
        Ok(RepoId { value: value.to_owned() })
    }

    pub fn as_str(&self) -> (s: &str)
        ensures
            s@ == self@,
    {
        self.value.as_str()
    }

    pub fn into_string(self) -> (s: String)
        ensures
            s@ == self@,
    {
        self.value
    }
}

impl std::str::FromStr for RepoId {
    type Err = Error;

    /// Parses with `RepoId::new`.
    fn from_str(s: &str) -> (r: Result<RepoId, Error>)
        ensures
            r is Ok <==> is_slug(s@),
            r matches Ok(id) ==> id@ == s@,
            r matches Err(e) ==> invalid_slug_error(e, "repo id"@, s@),
    {
        RepoId::new(s)
    }
}

impl Clone for RepoId {
    fn clone(&self) -> (r: Self)
        ensures
            r@ == self@,
    {
        proof {
            use_type_invariant(self);
        }
        RepoId { value: self.value.clone() }
    }
}

impl PartialEq for RepoId {
    fn eq(&self, other: &Self) -> (r: bool) {
        self.value == other.value
    }
}

impl Eq for RepoId {

}

impl vstd::std_specs::cmp::PartialEqSpecImpl for RepoId {
    open spec fn obeys_eq_spec() -> bool {
        true
    }

    open spec fn eq_spec(&self, other: &RepoId) -> bool {
        self@ == other@
    }
}

/// Validated template identifier (slug: `[a-z0-9_-]+`).
#[derive(Debug)]
pub struct TemplateId {
    value: String,
}

impl View for TemplateId {
    type V = Seq<char>;

    closed spec fn view(&self) -> Seq<char> {
        self.value@
    }
}

impl TemplateId {
    #[verifier::type_invariant]
    spec fn inv(&self) -> bool {
        is_slug(self.value@)
    }

    /// Accepts exactly the slugs; the error is labelled `template id`.
    pub fn new(value: &str) -> (r: Result<TemplateId, Error>)
        ensures
            r is Ok <==> is_slug(value@),
            r matches Ok(id) ==> id@ == value@,
            r matches Err(e) ==> invalid_slug_error(e, "template id"@, value@),
    {
        validate_slug(value, "template id")?;
        Ok(TemplateId { value: value.to_owned() })
    }

    pub fn as_str(&self) -> (s: &str)
        ensures
            s@ == self@,
    {
        self.value.as_str()
    }

    pub fn into_string(self) -> (s: String)
        ensures
            s@ == self@,
    {
        self.value
    }
}

impl std::str::FromStr for TemplateId {
    type Err = Error;

    /// Parses with `TemplateId::new`.
    fn from_str(s: &str) -> (r: Result<TemplateId, Error>)
        ensures
            r is Ok <==> is_slug(s@),
            r matches Ok(id) ==> id@ == s@,
            r matches Err(e) ==> invalid_slug_error(e, "template id"@, s@),
    {
        TemplateId::new(s)
    }
}

impl Clone for TemplateId {
    fn clone(&self) -> (r: Self)
        ensures
            r@ == self@,
    {
        proof {
            use_type_invariant(self);
        }
        TemplateId { value: self.value.clone() }
    }
}

impl PartialEq for TemplateId {
    fn eq(&self, other: &Self) -> (r: bool) {
        self.value == other.value
    }
}

impl Eq for TemplateId {

}

impl vstd::std_specs::cmp::PartialEqSpecImpl for TemplateId {
    open spec fn obeys_eq_spec() -> bool {
        true
    }

    open spec fn eq_spec(&self, other: &TemplateId) -> bool {
        self@ == other@
    }
}

// ---------------------------------------------------------------------------
// Clone sources
// ---------------------------------------------------------------------------

/// Allowed in the user part of an SCP-style source: ASCII alphanumerics and `._-`.
pub open spec fn is_scp_user_char(c: char) -> bool {
    ('a' <= c && c <= 'z') || ('A' <= c && c <= 'Z') || ('0' <= c && c <= '9') || c == '.' || c
        == '_' || c == '-'
}

/// Refused in the host part: ASCII control characters, ASCII whitespace, `:` and `/`.
pub open spec fn is_scp_host_forbidden(c: char) -> bool {
    (c as u32) < 0x20 || (c as u32) == 0x7f || c == ' ' || c == ':' || c == '/'
}

/// `colon` is the first `:` of `s`, `at` the first `@` before it, and the
/// parts `user@host:path` they delimit are well formed.
pub open spec fn scp_parts_ok(s: Seq<char>, at: int, colon: int) -> bool {
    &&& 0 < at
    &&& at + 1 < colon
    &&& colon + 1 < s.len()
    &&& s[colon] == ':'
    &&& forall|j: int| 0 <= j < colon ==> #[trigger] s[j] != ':'
    &&& s[at] == '@'
    &&& forall|j: int| 0 <= j < at ==> #[trigger] s[j] != '@'
    &&& forall|j: int| 0 <= j < at ==> #[trigger] is_scp_user_char(s[j])
    &&& forall|j: int| at < j < colon ==> !#[trigger] is_scp_host_forbidden(s[j])
}

/// SCP-style git SSH syntax: `user@host:path` with non-empty parts.
pub open spec fn spec_is_scp_like(s: Seq<char>) -> bool {
    exists|at: int, colon: int| scp_parts_ok(s, at, colon)
}

fn first_index_of(v: &Vec<char>, hi: usize, c: char) -> (r: Option<usize>)
    requires
        hi <= v.len(),
    ensures
        r matches Some(i) ==> i < hi && v@[i as int] == c && forall|j: int|
            0 <= j < i ==> v@[j] != c,
        r is None ==> forall|j: int| 0 <= j < hi ==> v@[j] != c,
{
    let mut i: usize = 0;
    while i < hi
        invariant
            i <= hi <= v.len(),
            forall|j: int| 0 <= j < i ==> v@[j] != c,
        decreases hi - i,
    {
        if v[i] == c {
            return Some(i);
        }
        i = i + 1;
    }
    None
}

/// Whether `source` is SCP-style (`user@host:path`).
pub fn is_scp_like(source: &str) -> (r: bool)
    ensures
        r == spec_is_scp_like(source@),
{
    let v = chars_of(source);
    let colon = match first_index_of(&v, v.len(), ':') {
        Some(i) => i,
        None => {
            proof {
                assert forall|at: int, colon: int| !scp_parts_ok(source@, at, colon) by {
                    if 0 <= colon < source@.len() {
                        assert(v@[colon] != ':');
                    }
                }
            }
            return false;
        },
    };
    let at = match first_index_of(&v, colon, '@') {
        Some(i) => i,
        None => {
            proof {
                assert forall|a: int, c: int| !scp_parts_ok(source@, a, c) by {
                    if scp_parts_ok(source@, a, c) {
                        assert(c == colon as int) by {
                            if c < colon {
                                assert(v@[c] != ':');
                            } else if c > colon {
                                assert(source@[colon as int] != ':');
                            }
                        }
                        assert(v@[a] != '@');
                    }
                }
            }
            return false;
        },
    };
    let mut ok = at > 0 && at + 1 < colon && colon + 1 < v.len();
    let mut j: usize = 0;
    while ok && j < at
        invariant
            v@ == source@,
            at < colon < v.len(),
            j <= at,
            ok ==> 0 < at && at + 1 < colon && colon + 1 < v.len(),
            ok ==> forall|k: int| 0 <= k < j ==> #[trigger] is_scp_user_char(v@[k]),
            !ok ==> !(0 < at && at + 1 < colon && colon + 1 < v.len() && forall|k: int|
                0 <= k < at ==> #[trigger] is_scp_user_char(v@[k])),
        decreases at - j,
    {
        let c = v[j];
        if !(('a' <= c && c <= 'z') || ('A' <= c && c <= 'Z') || ('0' <= c && c <= '9') || c
            == '.' || c == '_' || c == '-') {
            ok = false;
            proof {
                assert(!is_scp_user_char(v@[j as int]));
            }
        }
        j = j + 1;
    }
    let mut h: usize = at + 1;
    while ok && h < colon
        invariant
            v@ == source@,
            at < colon < v.len(),
            at + 1 <= h <= colon,
            ok ==> 0 < at && at + 1 < colon && colon + 1 < v.len(),
            ok ==> forall|k: int| 0 <= k < at ==> #[trigger] is_scp_user_char(v@[k]),
            ok ==> forall|k: int| at < k < h ==> !#[trigger] is_scp_host_forbidden(v@[k]),
            !ok ==> !(0 < at && at + 1 < colon && colon + 1 < v.len() && (forall|k: int|
                0 <= k < at ==> #[trigger] is_scp_user_char(v@[k])) && forall|k: int|
                at < k < colon ==> !#[trigger] is_scp_host_forbidden(v@[k])),
        decreases colon - h,
    {
        let c = v[h];
        if (c as u32) < 0x20 || (c as u32) == 0x7f || c == ' ' || c == ':' || c == '/' {
            ok = false;
            proof {
                assert(is_scp_host_forbidden(v@[h as int]));
            }
        }
        h = h + 1;
    }
    proof {
        assert forall|a: int, c: int| scp_parts_ok(source@, a, c) implies a == at && c
            == colon by {
            if c < colon {
                assert(v@[c] != ':');
            } else if c > colon {
                assert(source@[colon as int] != ':');
            }
            if a < at {
                assert(v@[a] != '@');
            } else if a > at {
                assert(source@[at as int] != '@');
            }
        }
        if ok {
            assert(scp_parts_ok(source@, at as int, colon as int));
        }
    }
    ok
}

/// HTTPS, SSH, file or SCP-style git source.
pub open spec fn is_valid_clone_source(s: Seq<char>) -> bool {
    ||| has_prefix(s, "https://"@)
    ||| has_prefix(s, "ssh://"@)
    ||| has_prefix(s, "file://"@)
    ||| spec_is_scp_like(s)
}

pub open spec fn invalid_clone_source_error(e: Error, source: Seq<char>) -> bool {
    e matches Error::Validation(ValidationError::InvalidCloneSource { clone_source: c })
        && c@ == source
}

/// Checks that `source` is a clone source this tool accepts.
pub fn validate_clone_source_value(source: &str) -> (r: Result<(), Error>)
    ensures
        r is Ok <==> is_valid_clone_source(source@),
        r matches Err(e) ==> invalid_clone_source_error(e, source@),
{
    let v = chars_of(source);
    let valid = starts_with_str(&v, "https://") || starts_with_str(&v, "ssh://")
        || starts_with_str(&v, "file://") || is_scp_like(source);
    if valid {
        Ok(())
    } else {
        Err(
            Error::Validation(
                ValidationError::InvalidCloneSource { clone_source: source.to_owned() },
            ),
        )
    }
}

/// A validated git clone source (HTTPS, SSH, file, or SCP-style URL).
#[derive(Debug)]
pub struct CloneSource {
    value: String,
}

impl View for CloneSource {
    type V = Seq<char>;

    closed spec fn view(&self) -> Seq<char> {
        self.value@
    }
}

impl CloneSource {
    #[verifier::type_invariant]
    spec fn inv(&self) -> bool {
        is_valid_clone_source(self.value@)
    }

    /// Accepts exactly the valid clone sources.
    pub fn new(value: &str) -> (r: Result<CloneSource, Error>)
        ensures
            r is Ok <==> is_valid_clone_source(value@),
            r matches Ok(s) ==> s@ == value@,
            r matches Err(e) ==> invalid_clone_source_error(e, value@),
    {
        validate_clone_source_value(value)?;
        Ok(CloneSource { value: value.to_owned() })
    }

    pub fn as_str(&self) -> (s: &str)
        ensures
            s@ == self@,
    {
        self.value.as_str()
    }

    pub fn into_string(self) -> (s: String)
        ensures
            s@ == self@,
    {
        self.value
    }
}

impl std::str::FromStr for CloneSource {
    type Err = Error;

    /// Parses with `CloneSource::new`.
    fn from_str(s: &str) -> (r: Result<CloneSource, Error>)
        ensures
            r is Ok <==> is_valid_clone_source(s@),
            r matches Ok(c) ==> c@ == s@,
            r matches Err(e) ==> invalid_clone_source_error(e, s@),
    {
        CloneSource::new(s)
    }
}

impl Clone for CloneSource {
    fn clone(&self) -> (r: Self)
        ensures
            r@ == self@,
    {
        proof {
            use_type_invariant(self);
        }
        CloneSource { value: self.value.clone() }
    }
}

} // verus!

verus! {

// ---------------------------------------------------------------------------
// Relative paths
// ---------------------------------------------------------------------------

pub open spec fn is_dot(p: Seq<char>) -> bool {
    p == seq!['.']
}

pub open spec fn is_dot_dot(p: Seq<char>) -> bool {
    p == seq!['.', '.']
}

/// A piece of a relative path that names something (not empty, not `.`).
pub open spec fn is_named_piece(p: Seq<char>) -> bool {
    p.len() > 0 && !is_dot(p)
}

/// The naming pieces, in order: `a//./b` keeps `a` and `b`.
pub open spec fn named_pieces(ps: Seq<Seq<char>>) -> Seq<Seq<char>>
    decreases ps.len(),
{
    if ps.len() == 0 {
        Seq::empty()
    } else {
        let rest = named_pieces(ps.drop_last());
        if is_named_piece(ps.last()) {
            rest.push(ps.last())
        } else {
            rest
        }
    }
}

/// The segments joined with `/`.
pub open spec fn join_segments(ps: Seq<Seq<char>>) -> Seq<char>
    decreases ps.len(),
{
    if ps.len() == 0 {
        Seq::empty()
    } else if ps.len() == 1 {
        ps[0]
    } else {
        join_segments(ps.drop_last()) + seq!['/'] + ps.last()
    }
}

/// The `/`-separated pieces of a path text.
pub open spec fn path_pieces(s: Seq<char>) -> Seq<Seq<char>> {
    split_on(s, Separator::Slash)
}

pub open spec fn has_dot_dot_piece(s: Seq<char>) -> bool {
    exists|j: int| 0 <= j < path_pieces(s).len() && is_dot_dot(#[trigger] path_pieces(s)[j])
}

/// A segment of a normalized relative path.
pub open spec fn is_normal_segment(p: Seq<char>) -> bool {
    &&& p.len() > 0
    &&& !is_dot(p)
    &&& !is_dot_dot(p)
    &&& forall|j: int| 0 <= j < p.len() ==> #[trigger] p[j] != '/'
}

/// Non-empty, relative, `/`-separated segments with no empty, `.` or `..` segment.
pub open spec fn is_normalized_relative(s: Seq<char>) -> bool {
    forall|i: int| 0 <= i < path_pieces(s).len() ==> is_normal_segment(#[trigger] path_pieces(s)[i])
}

/// The normal form of a relative path, when it has one: its naming pieces
/// joined with `/`.
pub open spec fn normalized_relative(s: Seq<char>) -> Seq<char> {
    join_segments(named_pieces(path_pieces(s)))
}

/// The errors of `normalize_relative_path`, in the order it checks them.
pub open spec fn relative_path_error(e: Error, label: Seq<char>, s: Seq<char>) -> bool {
    if s.len() == 0 {
        e matches Error::Validation(ValidationError::EmptyRelativePath { label: l }) && l@ == label
    } else if s[0] == '/' {
        e matches Error::Validation(ValidationError::AbsoluteRelativePath { label: l, path: p })
            && l@ == label && p@ == s
    } else if has_dot_dot_piece(s) {
        e matches Error::Validation(ValidationError::RelativePathEscapesBase { label: l, path: p })
            && l@ == label && p@ == s
    } else {
        e matches Error::Validation(ValidationError::RelativePathResolvesToRoot { label: l })
            && l@ == label
    }
}

/// Whether `normalize_relative_path` accepts `s`.
pub open spec fn accepts_relative_path(s: Seq<char>) -> bool {
    &&& s.len() > 0
    &&& s[0] != '/'
    &&& !has_dot_dot_piece(s)
    &&& named_pieces(path_pieces(s)).len() > 0
}

proof fn lemma_named_pieces_preserve(ps: Seq<Seq<char>>)
    requires
        forall|i: int| 0 <= i < ps.len() ==> !is_dot_dot(#[trigger] ps[i]),
        forall|i: int, j: int| 0 <= i < ps.len() && 0 <= j < ps[i].len() ==> #[trigger] ps[i][j] != '/',
    ensures
        forall|i: int|
            0 <= i < named_pieces(ps).len() ==> is_normal_segment(#[trigger] named_pieces(ps)[i]),
    decreases ps.len(),
{
    if ps.len() > 0 {
        let init = ps.drop_last();
        assert forall|i: int| 0 <= i < init.len() implies !is_dot_dot(#[trigger] init[i]) by {
            assert(init[i] == ps[i]);
        }
        assert forall|i: int, j: int| 0 <= i < init.len() && 0 <= j < init[i].len() implies #[trigger] init[i][j] != '/' by {
            assert(init[i] == ps[i]);
        }
        lemma_named_pieces_preserve(init);
        let last = ps.last();
        assert(!is_dot_dot(last)) by {
            assert(last == ps[ps.len() - 1]);
        }
        assert forall|j: int| 0 <= j < last.len() implies #[trigger] last[j] != '/' by {
            assert(ps[ps.len() - 1][j] != '/');
        }
        let named = named_pieces(ps);
        let rest = named_pieces(init);
        assert forall|i: int| 0 <= i < named.len() implies is_normal_segment(#[trigger] named[i]) by {
            if i < rest.len() {
                assert(named[i] == rest[i]);
            } else {
                assert(named[i] == last);
            }
        }
    }
}

proof fn lemma_join_starts_with_first(ps: Seq<Seq<char>>)
    requires
        ps.len() > 0,
        ps[0].len() > 0,
    ensures
        join_segments(ps).len() > 0,
        join_segments(ps)[0] == ps[0][0],
    decreases ps.len(),
{
    if ps.len() > 1 {
        lemma_join_starts_with_first(ps.drop_last());
    }
}

proof fn lemma_split_join(ps: Seq<Seq<char>>)
    requires
        ps.len() > 0,
        forall|i: int, j: int| 0 <= i < ps.len() && 0 <= j < ps[i].len() ==> #[trigger] ps[i][j] != '/',
    ensures
        path_pieces(join_segments(ps)) == ps,
    decreases ps.len(),
{
    if ps.len() == 1 {
        let p = ps[0];
        assert forall|j: int| 0 <= j < p.len() implies !crate::shared::text::is_separator(
            Separator::Slash,
            #[trigger] p[j],
        ) by {
            assert(ps[0][j] != '/');
        }
        crate::shared::text::lemma_split_on_without_separator(p, Separator::Slash);
        assert(ps =~= seq![p]);
    } else {
        let init = ps.drop_last();
        assert forall|i: int, j: int| 0 <= i < init.len() && 0 <= j < init[i].len() implies #[trigger] init[i][j] != '/' by {
            assert(init[i] == ps[i]);
        }
        lemma_split_join(init);
        let last = ps.last();
        assert forall|j: int| 0 <= j < last.len() implies !crate::shared::text::is_separator(
            Separator::Slash,
            #[trigger] last[j],
        ) by {
            assert(ps[ps.len() - 1][j] != '/');
        }
        crate::shared::text::lemma_split_on_append(join_segments(init), '/', last, Separator::Slash);
        assert(init.push(last) =~= ps);
    }
}

/// The normal form of an accepted path is normalized.
pub proof fn lemma_normalized_relative_is_normalized(s: Seq<char>)
    requires
        accepts_relative_path(s),
    ensures
        is_normalized_relative(normalized_relative(s)),
        normalized_relative(s).len() > 0,
        normalized_relative(s)[0] != '/',
        path_pieces(normalized_relative(s)) == named_pieces(path_pieces(s)),
{
    let ps = path_pieces(s);
    crate::shared::text::lemma_split_on_pieces_have_no_separator(s, Separator::Slash);
    assert forall|i: int| 0 <= i < ps.len() implies !is_dot_dot(#[trigger] ps[i]) by {
        if is_dot_dot(ps[i]) {
            assert(has_dot_dot_piece(s));
        }
    }
    assert forall|i: int, j: int| 0 <= i < ps.len() && 0 <= j < ps[i].len() implies #[trigger] ps[i][j] != '/' by {
        assert(!crate::shared::text::is_separator(Separator::Slash, ps[i][j]));
    }
    lemma_named_pieces_preserve(ps);
    let named = named_pieces(ps);
    assert forall|i: int, j: int| 0 <= i < named.len() && 0 <= j < named[i].len() implies #[trigger] named[i][j] != '/' by {
        assert(is_normal_segment(named[i]));
    }
    lemma_split_join(named);
    assert(is_normal_segment(named[0]));
    lemma_join_starts_with_first(named);
}

proof fn lemma_named_pieces_of_normal(ps: Seq<Seq<char>>)
    requires
        forall|i: int| 0 <= i < ps.len() ==> is_normal_segment(#[trigger] ps[i]),
    ensures
        named_pieces(ps) == ps,
    decreases ps.len(),
{
    if ps.len() > 0 {
        let init = ps.drop_last();
        assert forall|i: int| 0 <= i < init.len() implies is_normal_segment(#[trigger] init[i]) by {
            assert(init[i] == ps[i]);
        }
        lemma_named_pieces_of_normal(init);
        assert(is_normal_segment(ps[ps.len() - 1]));
        assert(init.push(ps.last()) =~= ps);
    }
}

/// Normalizing is idempotent: the normal form of an accepted path is
/// accepted again and normalizes to itself, so a stored path reads back
/// unchanged.
pub proof fn law_normalize_idempotent(s: Seq<char>)
    requires
        accepts_relative_path(s),
    ensures
        accepts_relative_path(normalized_relative(s)),
        normalized_relative(normalized_relative(s)) == normalized_relative(s),
{
    lemma_normalized_relative_is_normalized(s);
    let n = normalized_relative(s);
    let ps = path_pieces(n);
    assert(ps == named_pieces(path_pieces(s)));
    lemma_named_pieces_of_normal(ps);
    assert forall|j: int| 0 <= j < ps.len() implies !is_dot_dot(#[trigger] ps[j]) by {
        assert(is_normal_segment(ps[j]));
    }
    assert(!has_dot_dot_piece(n));
}

/// Normalizes a relative path: drops empty and `.` pieces, refuses empty,
/// absolute, escaping (`..`) and root-resolving paths.
pub fn normalize_relative_path(path: &str, label: &str) -> (r: Result<String, Error>)
    ensures
        r is Ok <==> accepts_relative_path(path@),
        r matches Ok(p) ==> p@ == normalized_relative(path@),
        r matches Err(e) ==> relative_path_error(e, label@, path@),
{
    let v = chars_of(path);
    if v.len() == 0 {
        return Err(
            Error::Validation(ValidationError::EmptyRelativePath { label: label.to_owned() }),
        );
    }
    if v[0] == '/' {
        return Err(
            Error::Validation(
                ValidationError::AbsoluteRelativePath {
                    label: label.to_owned(),
                    path: path.to_owned(),
                },
            ),
        );
    }
    let ranges = split_ranges(&v, 0, v.len(), Separator::Slash);
    let ghost pieces = path_pieces(path@);
    proof {
        assert(v@.subrange(0, v@.len() as int) =~= path@);
    }
    let mut out = String::new();
    let mut count: usize = 0;
    let mut k: usize = 0;
    while k < ranges.len()
        invariant
            v@ == path@,
            pieces == path_pieces(path@),
            ranges@.len() == pieces.len(),
            forall|m: int|
                #![trigger ranges@[m]]
                0 <= m < ranges@.len() ==> {
                    &&& 0 <= ranges@[m].0 <= ranges@[m].1 <= v@.len()
                    &&& v@.subrange(ranges@[m].0 as int, ranges@[m].1 as int) == pieces[m]
                },
            0 <= k <= ranges.len(),
            out@ == join_segments(named_pieces(pieces.take(k as int))),
            count == named_pieces(pieces.take(k as int)).len(),
            count <= k,
            v@.len() > 0 && v@[0] != '/',
            forall|j: int| 0 <= j < k ==> !is_dot_dot(#[trigger] pieces[j]),
        decreases ranges.len() - k,
    {
        let (a, b) = ranges[k];
        let ghost piece = pieces[k as int];
        proof {
            assert(pieces.take(k + 1).drop_last() =~= pieces.take(k as int));
            assert(pieces.take(k + 1).last() == piece);
            assert(piece.len() == b - a);
            if b - a >= 1 {
                assert(piece[0] == v@[a as int]);
            }
            if b - a >= 2 {
                assert(piece[1] == v@[a + 1]);
            }
        }
        if b - a == 2 && v[a] == '.' && v[a + 1] == '.' {
            proof {
                assert(piece =~= seq!['.', '.']);
                assert(has_dot_dot_piece(path@));
            }
            return Err(
                Error::Validation(
                    ValidationError::RelativePathEscapesBase {
                        label: label.to_owned(),
                        path: path.to_owned(),
                    },
                ),
            );
        }
        if b - a == 0 || (b - a == 1 && v[a] == '.') {
            proof {
                if b - a == 1 {
                    assert(piece =~= seq!['.']);
                }
                assert(!is_named_piece(piece));
            }
        } else {
            proof {
                if piece.len() == 1 {
                    assert(piece != seq!['.']) by {
                        assert(piece[0] != '.');
                    }
                }
                assert(is_named_piece(piece));
            }
            if count > 0 {
                push_char(&mut out, '/');
            }
            crate::shared::text::push_range(&mut out, &v, a, b);
            count = count + 1;
            proof {
                let named = named_pieces(pieces.take(k + 1));
                assert(named == named_pieces(pieces.take(k as int)).push(piece));
                if count == 1 {
                    assert(out@ =~= join_segments(named));
                } else {
                    assert(named.drop_last() =~= named_pieces(pieces.take(k as int)));
                    assert(out@ =~= join_segments(named));
                }
            }
        }
        k = k + 1;
    }
    proof {
        assert(pieces.take(ranges@.len() as int) =~= pieces);
        assert(!has_dot_dot_piece(path@));
    }
    if count == 0 {
        return Err(
            Error::Validation(
                ValidationError::RelativePathResolvesToRoot { label: label.to_owned() },
            ),
        );
    }
    Ok(out)
}

/// A validated, normalized relative path that stays within its base directory.
///
/// Rejects empty paths, absolute paths, and paths containing `..` components.
#[derive(Debug)]
pub struct RelativePath {
    text: String,
}

impl View for RelativePath {
    type V = Seq<char>;

    closed spec fn view(&self) -> Seq<char> {
        self.text@
    }
}

impl RelativePath {
    #[verifier::type_invariant]
    spec fn inv(&self) -> bool {
        is_normalized_relative(self.text@) && self.text@.len() > 0 && self.text@[0] != '/'
    }

    /// Normalizes `path`; see `normalize_relative_path`.
    pub fn new(path: &str, label: &str) -> (r: Result<RelativePath, Error>)
        ensures
            r is Ok <==> accepts_relative_path(path@),
            r matches Ok(p) ==> p@ == normalized_relative(path@),
            r matches Err(e) ==> relative_path_error(e, label@, path@),
    {
        let text = normalize_relative_path(path, label)?;
        proof {
            lemma_normalized_relative_is_normalized(path@);
        }
        Ok(RelativePath { text })
    }

    /// Parses with the label `relative path` (as `TryFrom<String>`).
    pub fn parse(path: &str) -> (r: Result<RelativePath, Error>)
        ensures
            r is Ok <==> accepts_relative_path(path@),
            r matches Ok(p) ==> p@ == normalized_relative(path@),
            r matches Err(e) ==> relative_path_error(e, "relative path"@, path@),
    {
        RelativePath::new(path, "relative path")
    }

    pub fn as_str(&self) -> (s: &str)
        ensures
            s@ == self@,
    {
        self.text.as_str()
    }

    pub fn into_string(self) -> (s: String)
        ensures
            s@ == self@,
    {
        self.text
    }
}

impl Clone for RelativePath {
    fn clone(&self) -> (r: Self)
        ensures
            r@ == self@,
    {
        proof {
            use_type_invariant(self);
        }
        RelativePath { text: self.text.clone() }
    }
}

impl PartialEq for RelativePath {
    fn eq(&self, other: &Self) -> (r: bool) {
        self.text == other.text
    }
}

impl Eq for RelativePath {

}

impl vstd::std_specs::cmp::PartialEqSpecImpl for RelativePath {
    open spec fn obeys_eq_spec() -> bool {
        true
    }

    open spec fn eq_spec(&self, other: &RelativePath) -> bool {
        self@ == other@
    }
}

} // verus!
