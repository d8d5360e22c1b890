//! Naming of downloaded recordings: the stable ID of a URL, and the file
//! the audio is cached in.
use vstd::prelude::*;

use crate::text::{
    chars_of, contains, contains_exec, digit_char, digit_char_exec, find_from, find_from_exec,
    lemma_find_from, occurs_at, occurs_at_exec, push_str_chars, string_from_chars,
};

verus! {

broadcast use vstd::string::group_string_axioms;

// ---------------------------------------------------------------------------
// Pieces of a URL
// ---------------------------------------------------------------------------

/// First position at or after `i` that holds one of `seps` (or the length).
pub open spec fn first_of_any(s: Seq<char>, seps: Seq<char>, i: int) -> int
    decreases s.len() - i,
{
    if 0 <= i < s.len() && !seps.contains(s[i]) {
        first_of_any(s, seps, i + 1)
    } else {
        i
    }
}

/// The part of `s` before the first character that is one of `seps`.
pub open spec fn cut_before_any(s: Seq<char>, seps: Seq<char>) -> Seq<char> {
    s.take(first_of_any(s, seps, 0))
}

pub proof fn lemma_first_of_any(s: Seq<char>, seps: Seq<char>, i: int)
    requires
        0 <= i <= s.len(),
    ensures
        i <= first_of_any(s, seps, i) <= s.len(),
        forall|k: int| i <= k < first_of_any(s, seps, i) ==> !seps.contains(#[trigger] s[k]),
    decreases s.len() - i,
{
    if i < s.len() && !seps.contains(s[i]) {
        lemma_first_of_any(s, seps, i + 1);
    }
}

/// Whether `c` is one of `set`.
fn is_one_of(c: char, set: &Vec<char>) -> (r: bool)
    ensures
        r == set@.contains(c),
{
    let mut k: usize = 0;
    while k < set.len()
        invariant
            k <= set.len(),
            forall|j: int| 0 <= j < k ==> set@[j] != c,
        decreases set.len() - k,
    {
        if set[k] == c {
            return true;
        }
        k = k + 1;
    }
    false
}

/// The part of `s[from..]` before the first character that is one of `seps`.
fn cut_before_any_exec(s: &Vec<char>, from: usize, seps: &Vec<char>) -> (r: Vec<char>)
    requires
        from <= s.len(),
    ensures
        r@ == cut_before_any(s@.skip(from as int), seps@),
{
    let ghost t = s@.skip(from as int);
    let mut r: Vec<char> = Vec::new();
    let mut i = from;
    while i < s.len() && !is_one_of(s[i], seps)
        invariant
            from <= i <= s.len(),
            t == s@.skip(from as int),
            first_of_any(t, seps@, (i - from) as int) == first_of_any(t, seps@, 0),
            r@ == t.take((i - from) as int),
        decreases s.len() - i,
    {
        r.push(s[i]);
        i = i + 1;
        assert(r@ =~= t.take((i - from) as int));
    }
    r
}

/// The piece of `s` between the first occurrence of `p` and the next one
/// (or the end): what `s.split(p).nth(1)` gives.
pub open spec fn piece_after_first(s: Seq<char>, p: Seq<char>) -> Option<Seq<char>> {
    match find_from(s, p, 0) {
        None => None,
        Some(i) => {
            let start = i + p.len();
            match find_from(s, p, start) {
                None => Some(s.subrange(start, s.len() as int)),
                Some(j) => Some(s.subrange(start, j)),
            }
        },
    }
}

/// Where the piece after the first occurrence of `p` starts and ends.
fn piece_after_first_exec(s: &Vec<char>, p: &Vec<char>) -> (r: Option<(usize, usize)>)
    requires
        p.len() > 0,
    ensures
        r is None <==> piece_after_first(s@, p@) is None,
        r matches Some((a, b)) ==> a <= b <= s.len() && piece_after_first(s@, p@) == Some(
            s@.subrange(a as int, b as int),
        ),
{
    proof {
        lemma_find_from(s@, p@, 0);
    }
    match find_from_exec(s, p, 0) {
        None => None,
        Some(i) => {
            assert(occurs_at(s@, p@, i as int));
            assert(i + p.len() <= s.len());
            let start = i + p.len();
            proof {
                lemma_find_from(s@, p@, start as int);
            }
            match find_from_exec(s, p, start) {
                None => Some((start, s.len())),
                Some(j) => Some((start, j)),
            }
        },
    }
}

/// Position `i` starts a piece of the URL split at `?` and `&`.
pub open spec fn piece_start(s: Seq<char>, i: int) -> bool {
    i == 0 || (0 < i <= s.len() && (s[i - 1] == '?' || s[i - 1] == '&'))
}

/// The first piece, at or after position `i`, that begins with `v=`.
pub open spec fn v_param_from(s: Seq<char>, i: int) -> Option<int>
    decreases s.len() + 1 - i,
{
    if i < 0 || i > s.len() {
        None
    } else if piece_start(s, i) && occurs_at(s, seq!['v', '='], i) {
        Some(i)
    } else {
        v_param_from(s, i + 1)
    }
}

/// Where the first piece that begins with `v=` starts.
fn v_param_exec(s: &Vec<char>) -> (r: Option<usize>)
    ensures
        r is None <==> v_param_from(s@, 0) is None,
        r matches Some(i) ==> v_param_from(s@, 0) == Some(i as int) && i + 2 <= s.len(),
{
    let mut v: Vec<char> = Vec::new();
    v.push('v');
    v.push('=');
    assert(v@ =~= seq!['v', '=']);
    let mut i: usize = 0;
    while i <= s.len()
        invariant
            v@ == seq!['v', '='],
            v_param_from(s@, 0) == v_param_from(s@, i as int),
        decreases s.len() + 1 - i,
    {
        let start = i == 0 || s[i - 1] == '?' || s[i - 1] == '&';
        if start && occurs_at_exec(s, &v, i) {
            return Some(i);
        }
        if i == s.len() {
            proof {
                reveal_with_fuel(v_param_from, 2);
            }
            return None;
        }
        i = i + 1;
    }
    None
}

// ---------------------------------------------------------------------------
// Video IDs
// ---------------------------------------------------------------------------

/// The characters at which an ID ends: those that end a query piece or a
/// fragment (`?`, `&`, `#`) and the path separators (`/`, `\\`).
pub open spec fn id_separators() -> Seq<char> {
    seq!['?', '&', '#', '/', '\\']
}

fn id_separators_exec() -> (r: Vec<char>)
    ensures
        r@ == id_separators(),
{
    let mut v: Vec<char> = Vec::new();
    v.push('?');
    v.push('&');
    v.push('#');
    v.push('/');
    v.push('\\');
    assert(v@ =~= id_separators());
    v
}

/// The ID that a YouTube URL names, if the URL is one of YouTube's and has
/// one: the `v=` query parameter, else the path after `youtu.be/`, else the
/// path after `/shorts/`, `/embed/` or `/v/`; each cut at the next of
/// `?`, `&`, `#`, `/` and `\\`.
pub open spec fn youtube_id(s: Seq<char>) -> Option<Seq<char>> {
    if !(contains(s, "youtube.com"@) || contains(s, "youtu.be"@)) {
        None
    } else if let Some(i) = v_param_from(s, 0) {
        Some(cut_before_any(s.skip(i + 2), id_separators()))
    } else if let Some(p) = piece_after_first(s, "youtu.be/"@) {
        Some(cut_before_any(p, id_separators()))
    } else if let Some(p) = piece_after_first(s, "/shorts/"@) {
        Some(cut_before_any(p, id_separators()))
    } else if let Some(p) = piece_after_first(s, "/embed/"@) {
        Some(cut_before_any(p, id_separators()))
    } else if let Some(p) = piece_after_first(s, "/v/"@) {
        Some(cut_before_any(p, id_separators()))
    } else {
        None
    }
}

/// The piece after the first occurrence of `pat` in `s`, cut at `seps`.
fn cut_piece(s: &Vec<char>, pat: &str, seps: &Vec<char>) -> (r: Option<Vec<char>>)
    requires
        pat@.len() > 0,
    ensures
        r matches Some(v) ==> piece_after_first(s@, pat@) matches Some(p) && v@ == cut_before_any(
            p,
            seps@,
        ),
        r is None ==> piece_after_first(s@, pat@) is None,
{
    let p = chars_of(pat);
    match piece_after_first_exec(s, &p) {
        None => None,
        Some((a, b)) => {
            let mut piece: Vec<char> = Vec::new();
            let mut k = a;
            while k < b
                invariant
                    a <= k <= b,
                    b <= s.len(),
                    piece@ == s@.subrange(a as int, k as int),
                decreases b - k,
            {
                piece.push(s[k]);
                k = k + 1;
                assert(piece@ =~= s@.subrange(a as int, k as int));
            }
            let cut = cut_before_any_exec(&piece, 0, seps);
            assert(piece@.skip(0) =~= piece@);
            Some(cut)
        },
    }
}

/// The characters of the ID that a YouTube URL names, if any.
fn youtube_id_chars(url: &str) -> (r: Option<Vec<char>>)
    ensures
        r matches Some(id) ==> youtube_id(url@) == Some(id@),
        r is None ==> youtube_id(url@) is None,
{
    let s = chars_of(url);
    let yt = chars_of("youtube.com");
    let short = chars_of("youtu.be");
    if !(contains_exec(&s, &yt) || contains_exec(&s, &short)) {
        return None;
    }
    let seps = id_separators_exec();
    if let Some(i) = v_param_exec(&s) {
        return Some(cut_before_any_exec(&s, i + 2, &seps));
    }
    proof {
        reveal_strlit("youtu.be/");
        reveal_strlit("/shorts/");
        reveal_strlit("/embed/");
        reveal_strlit("/v/");
    }
    if let Some(id) = cut_piece(&s, "youtu.be/", &seps) {
        return Some(id);
    }
    if let Some(id) = cut_piece(&s, "/shorts/", &seps) {
        return Some(id);
    }
    if let Some(id) = cut_piece(&s, "/embed/", &seps) {
        return Some(id);
    }
    cut_piece(&s, "/v/", &seps)
}

/// The ID that a YouTube URL names, if any.
pub fn youtube_video_id(url: &str) -> (r: Option<String>)
    ensures
        r matches Some(id) ==> youtube_id(url@) == Some(id@),
        r is None ==> youtube_id(url@) is None,
{
    match youtube_id_chars(url) {
        Some(id) => Some(string_from_chars(id.as_slice())),
        None => None,
    }
}

/// An ID that can stand as a file name's stem: not empty, and neither `.`
/// nor `..` (its characters are never separators, by the cut).
pub open spec fn is_safe_stem(id: Seq<char>) -> bool {
    id.len() > 0 && id != seq!['.'] && id != seq!['.', '.']
}

/// Whether an ID can stand as a file name's stem.
fn is_safe_stem_exec(id: &Vec<char>) -> (r: bool)
    ensures
        r == is_safe_stem(id@),
{
    if id.len() == 0 {
        return false;
    }
    if id.len() == 1 && id[0] == '.' {
        assert(id@ =~= seq!['.']);
        return false;
    }
    if id.len() == 2 && id[0] == '.' && id[1] == '.' {
        assert(id@ =~= seq!['.', '.']);
        return false;
    }
    if id.len() == 1 {
        assert(id@[0] != seq!['.'][0]);
    }
    if id.len() == 2 {
        assert(id@[0] != seq!['.', '.'][0] || id@[1] != seq!['.', '.'][1]);
    }
    true
}

/// The `k` lowest hexadecimal digits of `n`, most significant first.
pub open spec fn low_hex(n: nat, k: nat) -> Seq<char>
    decreases k,
{
    if k == 0 {
        Seq::empty()
    } else {
        low_hex(n / 16, (k - 1) as nat).push(digit_char(n % 16))
    }
}

/// `h` as sixteen lower-case hexadecimal digits, zero-padded (the
/// `{:016x}` format).
pub open spec fn hex16(h: u64) -> Seq<char> {
    low_hex(h as nat, 16)
}

/// `h` as sixteen lower-case hexadecimal digits.
pub fn hash_hex(h: u64) -> (r: String)
    ensures
        r@ == hex16(h),
{
    let mut rest = h;
    let mut acc: Vec<char> = Vec::new();
    let mut k: u64 = 0;
    while k < 16
        invariant
            k <= 16,
            low_hex(h as nat, 16) == low_hex(rest as nat, (16 - k) as nat) + acc@,
        decreases 16 - k,
    {
        let d = digit_char_exec(rest % 16);
        let ghost before = acc@;
        acc.insert(0, d);
        assert(low_hex(rest as nat, (16 - k) as nat) == low_hex((rest / 16) as nat, (16 - k
            - 1) as nat).push(d));
        assert(low_hex((rest / 16) as nat, (16 - k - 1) as nat).push(d) + before =~= low_hex(
            (rest / 16) as nat,
            (16 - k - 1) as nat,
        ) + acc@);
        rest = rest / 16;
        k = k + 1;
    }
    assert(low_hex(rest as nat, 0) + acc@ =~= acc@);
    string_from_chars(acc.as_slice())
}

/// What `DefaultHasher` gives for a string slice.
pub uninterp spec fn default_hash(s: Seq<char>) -> u64;

/// Hashes `url` with `std::collections::hash_map::DefaultHasher` as its
/// `Default` builds it (fixed keys, the same as `DefaultHasher::new`), via
/// `BuildHasher::hash_one`. The result is a function of the characters
/// alone; which function is left unsaid.
#[verifier::external_body]
fn hash_url(url: &str) -> (h: u64)
    ensures
        h == default_hash(url@),
{
    let builder =
        std::hash::BuildHasherDefault::<std::collections::hash_map::DefaultHasher>::default();
    std::hash::BuildHasher::hash_one(&builder, url)
}

/// The caching ID of a URL: its YouTube ID when it has one that can
/// stand as a file name's stem, else the sixteen hexadecimal digits of its
/// hash.
pub open spec fn video_id(url: Seq<char>) -> Seq<char> {
    match youtube_id(url) {
        Some(id) => if is_safe_stem(id) {
            id
        } else {
            hex16(default_hash(url))
        },
        None => hex16(default_hash(url)),
    }
}

/// Extract a stable, filesystem-safe ID from a URL for caching.
/// Recognises YouTube URL patterns; falls back to a hash for other sites.
pub fn extract_video_id(url: &str) -> (r: String)
    ensures
        r@ == video_id(url@),
{
    if let Some(id) = youtube_id_chars(url) {
        if is_safe_stem_exec(&id) {
            return string_from_chars(id.as_slice());
        }
    }
    let h = hash_url(url);
    hash_hex(h)
}

/// A character that can stand in a lower-case hexadecimal number.
pub open spec fn is_hex_digit(c: char) -> bool {
    ('0' <= c && c <= '9') || ('a' <= c && c <= 'f')
}

/// A character at which an ID ends: `?`, `&`, `#`, `/` or `\\`.
pub open spec fn is_id_separator(c: char) -> bool {
    c == '?' || c == '&' || c == '#' || c == '/' || c == '\\'
}

proof fn lemma_low_hex(n: nat, k: nat)
    ensures
        low_hex(n, k).len() == k,
        forall|j: int| 0 <= j < k ==> is_hex_digit(#[trigger] low_hex(n, k)[j]),
    decreases k,
{
    if k > 0 {
        lemma_low_hex(n / 16, (k - 1) as nat);
        let prev = low_hex(n / 16, (k - 1) as nat);
        assert forall|j: int| 0 <= j < k implies is_hex_digit(#[trigger] low_hex(n, k)[j]) by {
            if j < k - 1 {
                assert(low_hex(n, k)[j] == prev[j]);
            }
        }
    }
}

/// Whether `c` is one of the ID separators, as membership in their list.
proof fn lemma_id_separators_contains(c: char)
    ensures
        id_separators().contains(c) <==> is_id_separator(c),
{
    let seps = id_separators();
    if is_id_separator(c) {
        if c == '?' {
            assert(seps[0] == c);
        } else if c == '&' {
            assert(seps[1] == c);
        } else if c == '#' {
            assert(seps[2] == c);
        } else if c == '/' {
            assert(seps[3] == c);
        } else {
            assert(seps[4] == c);
        }
    }
}

proof fn lemma_cut_avoids(s: Seq<char>)
    ensures
        forall|j: int|
            0 <= j < cut_before_any(s, id_separators()).len() ==> !is_id_separator(
                #[trigger] cut_before_any(s, id_separators())[j],
            ),
{
    lemma_first_of_any(s, id_separators(), 0);
    let c = cut_before_any(s, id_separators());
    assert forall|j: int| 0 <= j < c.len() implies !is_id_separator(#[trigger] c[j]) by {
        assert(c[j] == s[j]);
        assert(!id_separators().contains(s[j]));
        lemma_id_separators_contains(s[j]);
    }
}

/// A caching ID can stand as a file name's stem: it is not empty, it is
/// neither `.` nor `..`, and it holds none of `?`, `&`, `#`, `/`, `\\`.
/// One made from the hash is sixteen hexadecimal digits.
pub proof fn lemma_video_id_shape(url: Seq<char>)
    ensures
        is_safe_stem(video_id(url)),
        forall|j: int|
            0 <= j < video_id(url).len() ==> !is_id_separator(#[trigger] video_id(url)[j]),
        youtube_id(url) is None ==> video_id(url).len() == 16 && forall|j: int|
            0 <= j < 16 ==> is_hex_digit(#[trigger] video_id(url)[j]),
{
    lemma_low_hex(default_hash(url) as nat, 16);
    let hex = hex16(default_hash(url));
    assert(hex != seq!['.']);
    assert(hex != seq!['.', '.']);
    assert forall|j: int| 0 <= j < hex.len() implies !is_id_separator(#[trigger] hex[j]) by {
        assert(is_hex_digit(hex[j]));
    }
    if let Some(id) = youtube_id(url) {
        if let Some(i) = v_param_from(url, 0) {
            lemma_cut_avoids(url.skip(i + 2));
        } else if let Some(p) = piece_after_first(url, "youtu.be/"@) {
            lemma_cut_avoids(p);
        } else if let Some(p) = piece_after_first(url, "/shorts/"@) {
            lemma_cut_avoids(p);
        } else if let Some(p) = piece_after_first(url, "/embed/"@) {
            lemma_cut_avoids(p);
        } else if let Some(p) = piece_after_first(url, "/v/"@) {
            lemma_cut_avoids(p);
        }
    }
}

// ---------------------------------------------------------------------------
// Plain IDs come back from every URL form
// ---------------------------------------------------------------------------

/// A character of a plain video ID: an ASCII letter or digit, `_` or `-`.
pub open spec fn is_plain_id_char(c: char) -> bool {
    ('a' <= c && c <= 'z') || ('A' <= c && c <= 'Z') || ('0' <= c && c <= '9') || c == '_' || c
        == '-'
}

/// A plain video ID: not empty, made of plain characters only.
pub open spec fn is_plain_id(id: Seq<char>) -> bool {
    id.len() > 0 && forall|j: int| 0 <= j < id.len() ==> is_plain_id_char(#[trigger] id[j])
}

/// Searching for a `v=` piece from `i` or from `k` gives the same when no
/// position in between starts a piece (no `?` or `&` before it).
proof fn lemma_v_param_skip(s: Seq<char>, i: int, k: int)
    requires
        1 <= i <= k <= s.len() + 1,
        forall|j: int| i - 1 <= j < k - 1 ==> s[j] != '?' && s[j] != '&',
    ensures
        v_param_from(s, i) == v_param_from(s, k),
    decreases k - i,
{
    if i < k {
        assert(!piece_start(s, i));
        lemma_v_param_skip(s, i + 1, k);
    }
}

/// Searching for `p` from `i` or from `k` gives the same when it occurs at
/// no position in between.
proof fn lemma_find_skip(s: Seq<char>, p: Seq<char>, i: int, k: int)
    requires
        0 <= i <= k,
        forall|j: int| i <= j < k ==> !occurs_at(s, p, j),
    ensures
        find_from(s, p, i) == find_from(s, p, k),
    decreases k - i,
{
    if i < k {
        lemma_find_skip(s, p, i + 1, k);
    }
}

/// `p` occurs nowhere at or after `k`.
proof fn lemma_find_none(s: Seq<char>, p: Seq<char>, k: int)
    requires
        0 <= k,
        forall|j: int| k <= j ==> !occurs_at(s, p, j),
    ensures
        find_from(s, p, k) is None,
{
    if k <= s.len() + 1 {
        lemma_find_skip(s, p, k, s.len() as int + 1);
    }
}

/// The cut of `t` ends at `n` when the first `n` characters are no
/// separators and the next one (if any) is.
proof fn lemma_first_separator_at(t: Seq<char>, i: int, n: int)
    requires
        0 <= i <= n <= t.len(),
        forall|j: int| i <= j < n ==> !is_id_separator(#[trigger] t[j]),
        n == t.len() || is_id_separator(t[n]),
    ensures
        first_of_any(t, id_separators(), i) == n,
    decreases n - i,
{
    if i < n {
        lemma_id_separators_contains(t[i]);
        lemma_first_separator_at(t, i + 1, n);
    } else if n < t.len() {
        lemma_id_separators_contains(t[n]);
    }
}

/// A plain ID followed by nothing, or by a separator, is cut back to itself,
/// and can stand as a file name's stem.
proof fn lemma_plain_cut(id: Seq<char>, tail: Seq<char>)
    requires
        is_plain_id(id),
        tail.len() == 0 || is_id_separator(tail[0]),
    ensures
        cut_before_any(id + tail, id_separators()) == id,
        is_safe_stem(id),
{
    let t = id + tail;
    assert forall|j: int| 0 <= j < id.len() implies !is_id_separator(#[trigger] t[j]) by {
        assert(t[j] == id[j]);
        assert(is_plain_id_char(id[j]));
    }
    lemma_first_separator_at(t, 0, id.len() as int);
    assert(t.take(id.len() as int) =~= id);
    assert(is_plain_id_char(id[0]));
    assert(id[0] != seq!['.'][0]);
    assert(id[0] != seq!['.', '.'][0]);
}

/// The characters of the URL `pre + id + tail` past the prefix and before
/// the tail are those of the ID.
proof fn lemma_url_parts(pre: Seq<char>, id: Seq<char>, tail: Seq<char>)
    ensures
        forall|j: int| 0 <= j < pre.len() ==> (pre + id + tail)[j] == pre[j],
        forall|j: int|
            pre.len() <= j < pre.len() + id.len() ==> (pre + id + tail)[j] == id[j - pre.len()],
        (pre + id + tail).skip(pre.len() as int) =~= id + tail,
{
}

/// A `v=` query parameter that is a plain ID comes back as the ID, with or
/// without a further parameter after it.
proof fn lemma_watch_url(id: Seq<char>, tail: Seq<char>)
    requires
        is_plain_id(id),
        tail.len() == 0 || tail[0] == '&',
    ensures
        video_id("https://www.youtube.com/watch?v="@ + id + tail) == id,
{
    reveal_strlit("https://www.youtube.com/watch?v=");
    reveal_strlit("youtube.com");
    let pre = "https://www.youtube.com/watch?v="@;
    assert(pre =~= seq![
        'h', 't', 't', 'p', 's', ':', '/', '/', 'w', 'w', 'w', '.', 'y', 'o', 'u', 't', 'u', 'b',
        'e', '.', 'c', 'o', 'm', '/', 'w', 'a', 't', 'c', 'h', '?', 'v', '=',
    ]);
    assert("youtube.com"@ =~= seq!['y', 'o', 'u', 't', 'u', 'b', 'e', '.', 'c', 'o', 'm']);
    let s = pre + id + tail;
    lemma_url_parts(pre, id, tail);
    assert(s.subrange(12, 23) =~= "youtube.com"@);
    assert(occurs_at(s, "youtube.com"@, 12));
    assert(contains(s, "youtube.com"@));
    assert(!occurs_at(s, seq!['v', '='], 0)) by {
        if occurs_at(s, seq!['v', '='], 0) {
            assert(s.subrange(0, 2)[0] == s[0]);
        }
    }
    assert(forall|j: int| 0 <= j < 29 ==> s[j] != '?' && s[j] != '&');
    lemma_v_param_skip(s, 1, 30);
    assert(s.subrange(30, 32) =~= seq!['v', '=']);
    assert(piece_start(s, 30));
    assert(v_param_from(s, 0) == Some(30int));
    lemma_plain_cut(id, tail);
    assert(s.skip(32) =~= id + tail);
}

/// `youtu.be/` followed by a plain ID gives the ID.
proof fn lemma_short_link_url(id: Seq<char>)
    requires
        is_plain_id(id),
    ensures
        video_id("https://youtu.be/"@ + id) == id,
{
    reveal_strlit("https://youtu.be/");
    reveal_strlit("youtu.be");
    reveal_strlit("youtu.be/");
    let pre = "https://youtu.be/"@;
    let yb = "youtu.be/"@;
    assert(pre =~= seq!['h', 't', 't', 'p', 's', ':', '/', '/', 'y', 'o', 'u', 't', 'u', '.', 'b', 'e', '/']);
    assert(yb =~= seq!['y', 'o', 'u', 't', 'u', '.', 'b', 'e', '/']);
    assert("youtu.be"@ =~= seq!['y', 'o', 'u', 't', 'u', '.', 'b', 'e']);
    let s = pre + id + Seq::<char>::empty();
    lemma_url_parts(pre, id, Seq::empty());
    assert(s.subrange(8, 16) =~= "youtu.be"@);
    assert(occurs_at(s, "youtu.be"@, 8));
    assert(!occurs_at(s, seq!['v', '='], 0)) by {
        if occurs_at(s, seq!['v', '='], 0) {
            assert(s.subrange(0, 2)[0] == s[0]);
        }
    }
    assert forall|j: int| 0 <= j < s.len() implies s[j] != '?' && s[j] != '&' by {
        if j >= 17 {
            assert(is_plain_id_char(id[j - 17]));
        }
    }
    lemma_v_param_skip(s, 1, s.len() as int + 1);
    assert(v_param_from(s, 0) is None);
    assert forall|j: int| 0 <= j < 8 implies !occurs_at(s, yb, j) by {
        if occurs_at(s, yb, j) {
            assert(s.subrange(j, j + 9)[0] == s[j]);
        }
    }
    lemma_find_skip(s, yb, 0, 8);
    assert(s.subrange(8, 17) =~= yb);
    assert(find_from(s, yb, 0) == Some(8int));
    assert forall|j: int| 17 <= j implies !occurs_at(s, yb, j) by {
        if occurs_at(s, yb, j) {
            assert(s.subrange(j, j + 9)[8] == s[j + 8]);
            assert(is_plain_id_char(id[j + 8 - 17]));
        }
    }
    lemma_find_none(s, yb, 17);
    assert(s.subrange(17, s.len() as int) =~= id + Seq::<char>::empty());
    lemma_plain_cut(id, Seq::empty());
    assert(s =~= pre + id);
}

/// No occurrence of `youtu.be/` in a URL that has no `.` followed, three
/// characters on, by `/`.
proof fn lemma_no_short_link(s: Seq<char>, yb: Seq<char>)
    requires
        yb =~= seq!['y', 'o', 'u', 't', 'u', '.', 'b', 'e', '/'],
        forall|j: int| 0 <= j && j + 8 < s.len() ==> !(s[j + 5] == '.' && #[trigger] s[j + 8] == '/'),
    ensures
        piece_after_first(s, yb) is None,
{
    assert forall|j: int| 0 <= j implies !occurs_at(s, yb, j) by {
        if occurs_at(s, yb, j) {
            assert(s.subrange(j, j + 9)[5] == s[j + 5]);
            assert(s.subrange(j, j + 9)[8] == s[j + 8]);
        }
    }
    lemma_find_none(s, yb, 0);
}

/// A URL with a path marker (`/shorts/` or `/embed/`) followed by a plain
/// ID gives the ID.
proof fn lemma_path_url(pre: Seq<char>, marker: Seq<char>, id: Seq<char>)
    requires
        is_plain_id(id),
        pre.len() == 23 + marker.len(),
        pre.subrange(0, 23) =~= seq![
            'h', 't', 't', 'p', 's', ':', '/', '/', 'w', 'w', 'w', '.', 'y', 'o', 'u', 't', 'u',
            'b', 'e', '.', 'c', 'o', 'm',
        ],
        pre.subrange(23, pre.len() as int) =~= marker,
        3 <= marker.len() <= 10,
        marker[0] == '/',
        marker[marker.len() - 1] == '/',
        forall|j: int| 0 < j < marker.len() - 1 ==> is_plain_id_char(#[trigger] marker[j]),
    ensures
        piece_after_first(pre + id, marker) == Some(id),
        forall|j: int| 0 <= j < (pre + id).len() ==> (pre + id)[j] != '?' && (pre + id)[j] != '&',
        contains(pre + id, "youtube.com"@),
        !occurs_at(pre + id, seq!['v', '='], 0),
        forall|j: int|
            0 <= j && j + 8 < (pre + id).len() ==> !((pre + id)[j + 5] == '.' && #[trigger] (pre
                + id)[j + 8] == '/'),
{
    reveal_strlit("youtube.com");
    assert("youtube.com"@ =~= seq!['y', 'o', 'u', 't', 'u', 'b', 'e', '.', 'c', 'o', 'm']);
    let s = pre + id;
    let m = marker.len() as int;
    let n = pre.len() as int;
    lemma_url_parts(pre, id, Seq::empty());
    assert(s =~= pre + id + Seq::<char>::empty());
    assert forall|j: int| 0 <= j < 23 implies s[j] == pre.subrange(0, 23)[j] by {}
    assert forall|j: int| 23 <= j < n implies s[j] == marker[j - 23] by {
        assert(pre.subrange(23, n)[j - 23] == pre[j]);
    }
    assert(s.subrange(12, 23) =~= "youtube.com"@);
    assert(occurs_at(s, "youtube.com"@, 12));
    assert(!occurs_at(s, seq!['v', '='], 0)) by {
        if occurs_at(s, seq!['v', '='], 0) {
            assert(s.subrange(0, 2)[0] == s[0]);
        }
    }
    assert forall|j: int| 0 <= j < s.len() implies s[j] != '?' && s[j] != '&' by {
        if j >= n {
            assert(is_plain_id_char(id[j - n]));
        } else if j >= 23 {
            if 23 < j < n - 1 {
                assert(is_plain_id_char(marker[j - 23]));
            }
        }
    }
    // Where the `/` characters and the `.` characters of the URL stand.
    assert forall|j: int| 0 <= j < s.len() && s[j] == '/' implies j == 6 || j == 7 || j == 23 || j
        == n - 1 by {
        if j >= n {
            assert(is_plain_id_char(id[j - n]));
        } else if 23 < j < n - 1 {
            assert(is_plain_id_char(marker[j - 23]));
        }
    }
    assert forall|j: int| 0 <= j < s.len() && s[j] == '.' implies j == 11 || j == 19 by {
        if j >= n {
            assert(is_plain_id_char(id[j - n]));
        } else if 23 < j < n - 1 {
            assert(is_plain_id_char(marker[j - 23]));
        }
    }
    assert forall|j: int|
        0 <= j && j + 8 < s.len() implies !(s[j + 5] == '.' && #[trigger] s[j + 8] == '/') by {}
    // The marker occurs first at 23, and not again.
    assert forall|j: int| 0 <= j < 23 implies !occurs_at(s, marker, j) by {
        if occurs_at(s, marker, j) {
            assert(s.subrange(j, j + m)[0] == s[j]);
            assert(s.subrange(j, j + m)[m - 1] == s[j + m - 1]);
            assert(s[j] == '/' && s[j + m - 1] == '/');
        }
    }
    lemma_find_skip(s, marker, 0, 23);
    assert(s.subrange(23, n) =~= marker);
    assert(find_from(s, marker, 0) == Some(23int));
    assert forall|j: int| n <= j implies !occurs_at(s, marker, j) by {
        if occurs_at(s, marker, j) {
            assert(s.subrange(j, j + m)[0] == s[j]);
            assert(is_plain_id_char(id[j - n]));
        }
    }
    lemma_find_none(s, marker, n);
    assert(s.subrange(n, s.len() as int) =~= id);
}

/// `/shorts/` followed by a plain ID gives the ID.
proof fn lemma_shorts_url(id: Seq<char>)
    requires
        is_plain_id(id),
    ensures
        video_id("https://www.youtube.com/shorts/"@ + id) == id,
{
    reveal_strlit("https://www.youtube.com/shorts/");
    reveal_strlit("/shorts/");
    reveal_strlit("youtu.be/");
    let pre = "https://www.youtube.com/shorts/"@;
    let marker = "/shorts/"@;
    assert(pre =~= seq![
        'h', 't', 't', 'p', 's', ':', '/', '/', 'w', 'w', 'w', '.', 'y', 'o', 'u', 't', 'u', 'b',
        'e', '.', 'c', 'o', 'm', '/', 's', 'h', 'o', 'r', 't', 's', '/',
    ]);
    assert(marker =~= seq!['/', 's', 'h', 'o', 'r', 't', 's', '/']);
    assert("youtu.be/"@ =~= seq!['y', 'o', 'u', 't', 'u', '.', 'b', 'e', '/']);
    assert(pre.subrange(23, pre.len() as int) =~= marker);
    lemma_path_url(pre, marker, id);
    let s = pre + id;
    lemma_v_param_skip(s, 1, s.len() as int + 1);
    lemma_no_short_link(s, "youtu.be/"@);
    lemma_plain_cut(id, Seq::empty());
    assert(id + Seq::<char>::empty() =~= id);
}

/// `/embed/` followed by a plain ID gives the ID.
proof fn lemma_embed_url(id: Seq<char>)
    requires
        is_plain_id(id),
    ensures
        video_id("https://www.youtube.com/embed/"@ + id) == id,
{
    reveal_strlit("https://www.youtube.com/embed/");
    reveal_strlit("/embed/");
    reveal_strlit("/shorts/");
    reveal_strlit("youtu.be/");
    let pre = "https://www.youtube.com/embed/"@;
    let marker = "/embed/"@;
    let shorts = "/shorts/"@;
    assert(pre =~= seq![
        'h', 't', 't', 'p', 's', ':', '/', '/', 'w', 'w', 'w', '.', 'y', 'o', 'u', 't', 'u', 'b',
        'e', '.', 'c', 'o', 'm', '/', 'e', 'm', 'b', 'e', 'd', '/',
    ]);
    assert(marker =~= seq!['/', 'e', 'm', 'b', 'e', 'd', '/']);
    assert(shorts =~= seq!['/', 's', 'h', 'o', 'r', 't', 's', '/']);
    assert("youtu.be/"@ =~= seq!['y', 'o', 'u', 't', 'u', '.', 'b', 'e', '/']);
    assert(pre.subrange(23, pre.len() as int) =~= marker);
    lemma_path_url(pre, marker, id);
    let s = pre + id;
    lemma_url_parts(pre, id, Seq::empty());
    assert(s =~= pre + id + Seq::<char>::empty());
    lemma_v_param_skip(s, 1, s.len() as int + 1);
    lemma_no_short_link(s, "youtu.be/"@);
    // `/shorts/` would need an `s` right after a `/`.
    assert forall|j: int| 0 <= j implies !occurs_at(s, shorts, j) by {
        if occurs_at(s, shorts, j) {
            assert(s.subrange(j, j + 8)[0] == s[j]);
            assert(s.subrange(j, j + 8)[1] == s[j + 1]);
            if j >= 30 {
                assert(is_plain_id_char(id[j - 30]));
            }
        }
    }
    lemma_find_none(s, shorts, 0);
    lemma_plain_cut(id, Seq::empty());
    assert(id + Seq::<char>::empty() =~= id);
}

/// Every plain video ID (letters, digits, `_` and `-`) comes back from each
/// of the URL forms that name it: a watch URL's `v=` parameter (alone or
/// followed by `&t=10s`), a `youtu.be/` short link, and the `/shorts/` and
/// `/embed/` paths.
pub proof fn lemma_plain_ids_recognised(id: Seq<char>)
    requires
        is_plain_id(id),
    ensures
        video_id("https://www.youtube.com/watch?v="@ + id) == id,
        video_id("https://www.youtube.com/watch?v="@ + id + "&t=10s"@) == id,
        video_id("https://youtu.be/"@ + id) == id,
        video_id("https://www.youtube.com/shorts/"@ + id) == id,
        video_id("https://www.youtube.com/embed/"@ + id) == id,
{
    lemma_watch_url(id, Seq::empty());
    assert("https://www.youtube.com/watch?v="@ + id + Seq::<char>::empty() =~= "https://www.youtube.com/watch?v="@ + id);
    reveal_strlit("&t=10s");
    lemma_watch_url(id, "&t=10s"@);
    lemma_short_link_url(id);
    lemma_shorts_url(id);
    lemma_embed_url(id);
}

// ---------------------------------------------------------------------------
// A query after a path-form URL does not change its ID
// ---------------------------------------------------------------------------

/// A simple query that may follow a URL: empty, or `?` then letters,
/// digits, `_`, `-` and `=`, not naming a `v` parameter first (as a share
/// link's `?si=...` does).
pub open spec fn is_simple_query(q: Seq<char>) -> bool {
    q.len() == 0 || (q[0] == '?' && (forall|j: int|
        1 <= j < q.len() ==> is_plain_id_char(#[trigger] q[j]) || q[j] == '=') && !(q.len() >= 3
        && q[1] == 'v' && q[2] == '='))
}

/// The characters of `pre + id + q` after `pre` hold no `/`, `&`, `.` or
/// `\\`, and `?` only where the query begins.
proof fn lemma_body_chars(pre: Seq<char>, id: Seq<char>, q: Seq<char>)
    requires
        is_plain_id(id),
        is_simple_query(q),
    ensures
        forall|j: int|
            pre.len() <= j < (pre + id + q).len() ==> {
                let c = #[trigger] (pre + id + q)[j];
                c != '/' && c != '&' && c != '.' && c != '\\' && (c == '?' ==> j == pre.len()
                    + id.len())
            },
{
    let s = pre + id + q;
    let n: int = (pre.len() + id.len()) as int;
    assert forall|j: int| pre.len() <= j < s.len() implies {
        let c = #[trigger] s[j];
        c != '/' && c != '&' && c != '.' && c != '\\' && (c == '?' ==> j == n)
    } by {
        if j < n {
            assert(s[j] == id[j - pre.len()]);
            assert(is_plain_id_char(id[j - pre.len()]));
        } else if j > n {
            assert(s[j] == q[j - n]);
            assert(is_plain_id_char(q[j - n]) || q[j - n] == '=');
        } else {
            assert(s[j] == q[0]);
        }
    }
}

/// No `v=` piece in `pre + id + q` when the prefix starts with no `v` and
/// holds no `?` or `&`.
proof fn lemma_no_v_param(pre: Seq<char>, id: Seq<char>, q: Seq<char>)
    requires
        is_plain_id(id),
        is_simple_query(q),
        pre.len() > 0,
        pre[0] != 'v',
        forall|j: int| 0 <= j < pre.len() ==> pre[j] != '?' && pre[j] != '&',
    ensures
        v_param_from(pre + id + q, 0) is None,
{
    let s = pre + id + q;
    let n: int = (pre.len() + id.len()) as int;
    lemma_body_chars(pre, id, q);
    assert(s[0] == pre[0]);
    assert(!occurs_at(s, seq!['v', '='], 0)) by {
        if occurs_at(s, seq!['v', '='], 0) {
            assert(s.subrange(0, 2)[0] == s[0]);
        }
    }
    assert forall|j: int| 0 <= j < n implies s[j] != '?' && s[j] != '&' by {
        if j < pre.len() {
            assert(s[j] == pre[j]);
        }
    }
    if q.len() == 0 {
        lemma_v_param_skip(s, 1, s.len() as int + 1);
    } else {
        lemma_v_param_skip(s, 1, n + 1);
        assert(!occurs_at(s, seq!['v', '='], n + 1)) by {
            if occurs_at(s, seq!['v', '='], n + 1) {
                assert(s.subrange(n + 1, n + 3)[0] == s[n + 1]);
                assert(s.subrange(n + 1, n + 3)[1] == s[n + 2]);
                assert(s[n + 1] == q[1]);
                assert(s[n + 2] == q[2]);
            }
        }
        lemma_v_param_skip(s, n + 2, s.len() as int + 1);
    }
}

/// A pattern ending in `/` whose first occurrence in the prefix ends the
/// prefix: the piece after it is the ID and the query.
proof fn lemma_piece_is_body(pre: Seq<char>, p: Seq<char>, id: Seq<char>, q: Seq<char>)
    requires
        is_plain_id(id),
        is_simple_query(q),
        1 <= p.len() <= pre.len(),
        p.last() == '/',
        pre.subrange(pre.len() - p.len(), pre.len() as int) == p,
        forall|j: int| 0 <= j < pre.len() - p.len() ==> !occurs_at(pre, p, j),
    ensures
        piece_after_first(pre + id + q, p) == Some(id + q),
{
    let s = pre + id + q;
    let m = p.len() as int;
    let n = pre.len() as int;
    lemma_body_chars(pre, id, q);
    assert forall|j: int| 0 <= j < n - m implies !occurs_at(s, p, j) by {
        if occurs_at(s, p, j) {
            assert(s.subrange(j, j + m) =~= pre.subrange(j, j + m));
            assert(occurs_at(pre, p, j));
        }
    }
    lemma_find_skip(s, p, 0, n - m);
    assert(s.subrange(n - m, n) =~= pre.subrange(n - m, n));
    assert(find_from(s, p, 0) == Some(n - m));
    assert forall|j: int| n <= j implies !occurs_at(s, p, j) by {
        if occurs_at(s, p, j) {
            assert(s.subrange(j, j + m)[m - 1] == s[j + m - 1]);
        }
    }
    lemma_find_none(s, p, n);
    assert(s.subrange(n, s.len() as int) =~= id + q);
}

/// A pattern ending in `/` that occurs nowhere in the prefix occurs nowhere
/// in the URL.
proof fn lemma_piece_absent(pre: Seq<char>, p: Seq<char>, id: Seq<char>, q: Seq<char>)
    requires
        is_plain_id(id),
        is_simple_query(q),
        p.len() >= 1,
        p.last() == '/',
        forall|j: int| 0 <= j && j + p.len() <= pre.len() ==> !occurs_at(pre, p, j),
    ensures
        piece_after_first(pre + id + q, p) is None,
{
    let s = pre + id + q;
    let m = p.len() as int;
    lemma_body_chars(pre, id, q);
    assert forall|j: int| 0 <= j implies !occurs_at(s, p, j) by {
        if occurs_at(s, p, j) {
            if j + m <= pre.len() {
                assert(s.subrange(j, j + m) =~= pre.subrange(j, j + m));
                assert(occurs_at(pre, p, j));
            } else {
                assert(s.subrange(j, j + m)[m - 1] == s[j + m - 1]);
                assert(s[j + m - 1] == p.last());
            }
        }
    }
    lemma_find_none(s, p, 0);
}

/// What the prefix contains, the URL contains.
proof fn lemma_contains_prefix(pre: Seq<char>, rest: Seq<char>, w: Seq<char>, i: int)
    requires
        occurs_at(pre, w, i),
    ensures
        contains(pre + rest, w),
{
    assert((pre + rest).subrange(i, i + w.len()) =~= pre.subrange(i, i + w.len()));
    assert(occurs_at(pre + rest, w, i));
}

/// A `youtu.be/` short link with a plain ID and a simple query gives the ID.
proof fn lemma_short_link_query(id: Seq<char>, q: Seq<char>)
    requires
        is_plain_id(id),
        is_simple_query(q),
    ensures
        video_id("https://youtu.be/"@ + id + q) == id,
{
    reveal_strlit("https://youtu.be/");
    reveal_strlit("youtu.be");
    reveal_strlit("youtu.be/");
    let pre = "https://youtu.be/"@;
    let yb = "youtu.be/"@;
    assert(pre =~= seq!['h', 't', 't', 'p', 's', ':', '/', '/', 'y', 'o', 'u', 't', 'u', '.', 'b', 'e', '/']);
    assert(yb =~= seq!['y', 'o', 'u', 't', 'u', '.', 'b', 'e', '/']);
    assert("youtu.be"@ =~= seq!['y', 'o', 'u', 't', 'u', '.', 'b', 'e']);
    let s = pre + id + q;
    assert(pre.subrange(8, 16) =~= "youtu.be"@);
    lemma_contains_prefix(pre, id + q, "youtu.be"@, 8);
    assert(pre + (id + q) =~= s);
    assert(forall|j: int| 0 <= j < pre.len() ==> pre[j] != '?' && pre[j] != '&');
    lemma_no_v_param(pre, id, q);
    assert(pre.subrange(8, 17) =~= yb);
    assert forall|j: int| 0 <= j < 8 implies !occurs_at(pre, yb, j) by {
        if occurs_at(pre, yb, j) {
            assert(pre.subrange(j, j + 9)[0] == pre[j]);
        }
    }
    lemma_piece_is_body(pre, yb, id, q);
    lemma_plain_cut(id, q);
}

/// A `/shorts/` URL on either host, with a plain ID and a simple query,
/// gives the ID.
proof fn lemma_shorts_query(pre: Seq<char>, id: Seq<char>, q: Seq<char>)
    requires
        is_plain_id(id),
        is_simple_query(q),
        pre == "https://youtube.com/shorts/"@ || pre == "https://www.youtube.com/shorts/"@,
    ensures
        video_id(pre + id + q) == id,
{
    reveal_strlit("https://youtube.com/shorts/");
    reveal_strlit("https://www.youtube.com/shorts/");
    reveal_strlit("youtube.com");
    reveal_strlit("youtu.be/");
    reveal_strlit("/shorts/");
    let yt = "youtube.com"@;
    let yb = "youtu.be/"@;
    let marker = "/shorts/"@;
    assert(yt =~= seq!['y', 'o', 'u', 't', 'u', 'b', 'e', '.', 'c', 'o', 'm']);
    assert(yb =~= seq!['y', 'o', 'u', 't', 'u', '.', 'b', 'e', '/']);
    assert(marker =~= seq!['/', 's', 'h', 'o', 'r', 't', 's', '/']);
    let w: int = if pre == "https://youtube.com/shorts/"@ {
        assert(pre =~= seq![
            'h', 't', 't', 'p', 's', ':', '/', '/', 'y', 'o', 'u', 't', 'u', 'b', 'e', '.', 'c',
            'o', 'm', '/', 's', 'h', 'o', 'r', 't', 's', '/',
        ]);
        8
    } else {
        assert(pre =~= seq![
            'h', 't', 't', 'p', 's', ':', '/', '/', 'w', 'w', 'w', '.', 'y', 'o', 'u', 't', 'u',
            'b', 'e', '.', 'c', 'o', 'm', '/', 's', 'h', 'o', 'r', 't', 's', '/',
        ]);
        12
    };
    let s = pre + id + q;
    assert(pre.subrange(w, w + 11) =~= yt);
    lemma_contains_prefix(pre, id + q, yt, w);
    assert(pre + (id + q) =~= s);
    assert(forall|j: int| 0 <= j < pre.len() ==> pre[j] != '?' && pre[j] != '&');
    lemma_no_v_param(pre, id, q);
    assert forall|j: int| 0 <= j && j + 9 <= pre.len() implies !occurs_at(pre, yb, j) by {
        if occurs_at(pre, yb, j) {
            assert(pre.subrange(j, j + 9)[0] == pre[j]);
            assert(pre.subrange(j, j + 9)[5] == pre[j + 5]);
        }
    }
    lemma_piece_absent(pre, yb, id, q);
    assert(pre.subrange(pre.len() - 8, pre.len() as int) =~= marker);
    assert forall|j: int| 0 <= j < pre.len() - 8 implies !occurs_at(pre, marker, j) by {
        if occurs_at(pre, marker, j) {
            assert(pre.subrange(j, j + 8)[0] == pre[j]);
            assert(pre.subrange(j, j + 8)[1] == pre[j + 1]);
        }
    }
    lemma_piece_is_body(pre, marker, id, q);
    lemma_plain_cut(id, q);
}

/// An `/embed/` URL on either host, with a plain ID and a simple query,
/// gives the ID.
proof fn lemma_embed_query(pre: Seq<char>, id: Seq<char>, q: Seq<char>)
    requires
        is_plain_id(id),
        is_simple_query(q),
        pre == "https://youtube.com/embed/"@ || pre == "https://www.youtube.com/embed/"@,
    ensures
        video_id(pre + id + q) == id,
{
    reveal_strlit("https://youtube.com/embed/");
    reveal_strlit("https://www.youtube.com/embed/");
    reveal_strlit("youtube.com");
    reveal_strlit("youtu.be/");
    reveal_strlit("/shorts/");
    reveal_strlit("/embed/");
    let yt = "youtube.com"@;
    let yb = "youtu.be/"@;
    let shorts = "/shorts/"@;
    let marker = "/embed/"@;
    assert(yt =~= seq!['y', 'o', 'u', 't', 'u', 'b', 'e', '.', 'c', 'o', 'm']);
    assert(yb =~= seq!['y', 'o', 'u', 't', 'u', '.', 'b', 'e', '/']);
    assert(shorts =~= seq!['/', 's', 'h', 'o', 'r', 't', 's', '/']);
    assert(marker =~= seq!['/', 'e', 'm', 'b', 'e', 'd', '/']);
    let w: int = if pre == "https://youtube.com/embed/"@ {
        assert(pre =~= seq![
            'h', 't', 't', 'p', 's', ':', '/', '/', 'y', 'o', 'u', 't', 'u', 'b', 'e', '.', 'c',
            'o', 'm', '/', 'e', 'm', 'b', 'e', 'd', '/',
        ]);
        8
    } else {
        assert(pre =~= seq![
            'h', 't', 't', 'p', 's', ':', '/', '/', 'w', 'w', 'w', '.', 'y', 'o', 'u', 't', 'u',
            'b', 'e', '.', 'c', 'o', 'm', '/', 'e', 'm', 'b', 'e', 'd', '/',
        ]);
        12
    };
    let s = pre + id + q;
    assert(pre.subrange(w, w + 11) =~= yt);
    lemma_contains_prefix(pre, id + q, yt, w);
    assert(pre + (id + q) =~= s);
    assert(forall|j: int| 0 <= j < pre.len() ==> pre[j] != '?' && pre[j] != '&');
    lemma_no_v_param(pre, id, q);
    assert forall|j: int| 0 <= j && j + 9 <= pre.len() implies !occurs_at(pre, yb, j) by {
        if occurs_at(pre, yb, j) {
            assert(pre.subrange(j, j + 9)[0] == pre[j]);
            assert(pre.subrange(j, j + 9)[5] == pre[j + 5]);
        }
    }
    lemma_piece_absent(pre, yb, id, q);
    assert forall|j: int| 0 <= j && j + 8 <= pre.len() implies !occurs_at(pre, shorts, j) by {
        if occurs_at(pre, shorts, j) {
            assert(pre.subrange(j, j + 8)[0] == pre[j]);
            assert(pre.subrange(j, j + 8)[1] == pre[j + 1]);
        }
    }
    lemma_piece_absent(pre, shorts, id, q);
    assert(pre.subrange(pre.len() - 7, pre.len() as int) =~= marker);
    assert forall|j: int| 0 <= j < pre.len() - 7 implies !occurs_at(pre, marker, j) by {
        if occurs_at(pre, marker, j) {
            assert(pre.subrange(j, j + 7)[0] == pre[j]);
            assert(pre.subrange(j, j + 7)[1] == pre[j + 1]);
        }
    }
    lemma_piece_is_body(pre, marker, id, q);
    lemma_plain_cut(id, q);
}

/// A query does not change the ID of a path-form URL: for every plain ID
/// and every simple query (such as a share link's `?si=...`), the short
/// link, the `/shorts/` path and the `/embed/` path (with or without
/// `www.`) give the ID, the same as without the query.
pub proof fn lemma_query_keeps_path_id(id: Seq<char>, q: Seq<char>)
    requires
        is_plain_id(id),
        is_simple_query(q),
    ensures
        video_id("https://youtu.be/"@ + id + q) == id,
        video_id("https://youtube.com/shorts/"@ + id + q) == id,
        video_id("https://www.youtube.com/shorts/"@ + id + q) == id,
        video_id("https://youtube.com/embed/"@ + id + q) == id,
        video_id("https://www.youtube.com/embed/"@ + id + q) == id,
        video_id("https://youtube.com/shorts/"@ + id + q) == video_id(
            "https://youtube.com/shorts/"@ + id,
        ),
{
    lemma_short_link_query(id, q);
    lemma_shorts_query("https://youtube.com/shorts/"@, id, q);
    lemma_shorts_query("https://www.youtube.com/shorts/"@, id, q);
    lemma_embed_query("https://youtube.com/embed/"@, id, q);
    lemma_embed_query("https://www.youtube.com/embed/"@, id, q);
    lemma_shorts_query("https://youtube.com/shorts/"@, id, Seq::empty());
    assert("https://youtube.com/shorts/"@ + id + Seq::<char>::empty() =~= "https://youtube.com/shorts/"@ + id);
}

/// The name of the file a recording's audio is cached in.
pub open spec fn spec_audio_file_name(video_id: Seq<char>) -> Seq<char> {
    video_id + ".m4a"@
}

/// The name of the file a recording's audio is cached in.
pub fn audio_file_name(video_id: &str) -> (r: String)
    ensures
        r@ == spec_audio_file_name(video_id@),
{
    let mut v: Vec<char> = Vec::new();
    push_str_chars(&mut v, video_id);
    push_str_chars(&mut v, ".m4a");
    string_from_chars(v.as_slice())
}

} // verus!
