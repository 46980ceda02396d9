//! Remote (SFTP, POSIX-style) paths: normalising, joining, and taking parents.
use vstd::prelude::*;
use crate::text::{
    chars_of, has_char, is_white, strip_start_char, trim_end, trim_start, owned, push_char, push_str, same_text, string_of, strip_char, strip_end_char, stripped,
    stripped_end, trim, trimmed,
};

verus! {

/// `path` as an absolute remote path: trimmed of whitespace, with exactly one
/// leading `/` and no trailing `/`; empty input and `/` both give `/`.
pub open spec fn normalized(path: Seq<char>) -> Seq<char> {
    let t = trim(path);
    if t.len() == 0 || t == seq!['/'] { seq!['/'] } else { seq!['/'] + strip_char(t, '/') }
}

/// `parent` and `name` joined by one `/`: no `/` is doubled after the root, and
/// trailing `/` of `parent` are dropped.
pub open spec fn joined(parent: Seq<char>, name: Seq<char>) -> Seq<char> {
    if parent == seq!['/'] { seq!['/'] + name } else { strip_end_char(parent, '/') + seq!['/'] + name }
}

/// The state of splitting `s` on `/`: the non-empty words finished so far and the
/// word being read.
pub open spec fn words_state(s: Seq<char>) -> (Seq<Seq<char>>, Seq<char>)
    decreases s.len(),
{
    if s.len() == 0 {
        (Seq::empty(), Seq::empty())
    } else {
        let (w, cur) = words_state(s.drop_last());
        if s.last() == '/' {
            if cur.len() > 0 { (w.push(cur), Seq::empty()) } else { (w, Seq::empty()) }
        } else {
            (w, cur.push(s.last()))
        }
    }
}

/// The non-empty parts of `s` between `/` characters, in order.
pub open spec fn words(s: Seq<char>) -> Seq<Seq<char>> {
    let (w, cur) = words_state(s);
    if cur.len() > 0 { w.push(cur) } else { w }
}

/// `ws` joined with `/` between them.
pub open spec fn slash_joined(ws: Seq<Seq<char>>) -> Seq<char>
    decreases ws.len(),
{
    if ws.len() == 0 {
        Seq::empty()
    } else if ws.len() == 1 {
        ws[0]
    } else {
        slash_joined(ws.drop_last()) + seq!['/'] + ws.last()
    }
}

/// The parent of a remote path: none for the root; otherwise the normalised path
/// with its last word dropped and the rest joined under the root.
pub open spec fn parent_of(path: Seq<char>) -> Option<Seq<char>> {
    let c = normalized(path);
    if c == seq!['/'] {
        None
    } else {
        let all = words(c);
        if all.len() <= 1 { Some(seq!['/']) } else { Some(seq!['/'] + slash_joined(all.drop_last())) }
    }
}

/// `path` normalised as an absolute remote path.
pub fn normalize_remote_path(path: &str) -> (r: String)
    ensures
        r@ == normalized(path@),
{
    let t = trimmed(path);
    if t.as_str().is_empty() || same_text(t.as_str(), "/") {
        proof {
            reveal_strlit("/");
            assert("/"@ =~= seq!['/']);
        }
        return owned("/");
    }
    proof {
        reveal_strlit("/");
        assert("/"@ =~= seq!['/']);
    }
    let mut r = owned("/");
    let inner = stripped(t.as_str(), '/');
    push_str(&mut r, inner.as_str());
    r
}

/// `parent` and `name` joined by one `/`.
pub fn join_remote_path(parent: &str, name: &str) -> (r: String)
    ensures
        r@ == joined(parent@, name@),
{
    proof {
        reveal_strlit("/");
        assert("/"@ =~= seq!['/']);
    }
    if same_text(parent, "/") {
        let mut r = owned("/");
        push_str(&mut r, name);
        r
    } else {
        let mut r = stripped_end(parent, '/');
        push_char(&mut r, '/');
        push_str(&mut r, name);
        assert(r@ =~= strip_end_char(parent@, '/') + seq!['/'] + name@);
        r
    }
}

/// The non-empty parts of `s` between `/` characters.
pub fn split_words(s: &str) -> (ws: Vec<Vec<char>>)
    ensures
        ws@.len() == words(s@).len(),
        forall|i: int| 0 <= i < ws@.len() ==> #[trigger] ws@[i]@ == words(s@)[i],
{
    let v = chars_of(s);
    let mut ws: Vec<Vec<char>> = Vec::new();
    let mut cur: Vec<char> = Vec::new();
    let mut i: usize = 0;
    while i < v.len()
        invariant
            v@ == s@,
            i <= v.len(),
            ws@.len() == words_state(v@.take(i as int)).0.len(),
            forall|k: int| 0 <= k < ws@.len() ==> #[trigger] ws@[k]@ == words_state(v@.take(i as int)).0[k],
            cur@ == words_state(v@.take(i as int)).1,
        decreases v.len() - i,
    {
        proof {
            assert(v@.take(i + 1).drop_last() =~= v@.take(i as int));
        }
        let c = v[i];
        if c == '/' {
            if cur.len() > 0 {
                let mut done: Vec<char> = Vec::new();
                std::mem::swap(&mut done, &mut cur);
                ws.push(done);
            }
        } else {
            cur.push(c);
        }
        i += 1;
    }
    assert(v@.take(v.len() as int) =~= v@);
    if cur.len() > 0 {
        ws.push(cur);
    }
    ws
}

/// The words of `ws` before index `n`, joined with `/` under the root.
fn rooted_join(ws: &Vec<Vec<char>>, n: usize) -> (r: String)
    requires
        n <= ws.len(),
    ensures
        r@ == seq!['/'] + slash_joined(ws@.take(n as int).map_values(|w: Vec<char>| w@)),
{
    let mut r = owned("/");
    proof {
        reveal_strlit("/");
        assert("/"@ =~= seq!['/']);
    }
    let mut i: usize = 0;
    while i < n
        invariant
            i <= n <= ws.len(),
            r@ == seq!['/'] + slash_joined(ws@.take(i as int).map_values(|w: Vec<char>| w@)),
        decreases n - i,
    {
        let ghost before = ws@.take(i as int).map_values(|w: Vec<char>| w@);
        let ghost after = ws@.take(i + 1).map_values(|w: Vec<char>| w@);
        proof {
            assert(after.drop_last() =~= before);
            assert(after.last() == ws@[i as int]@);
        }
        if i > 0 {
            push_char(&mut r, '/');
        }
        let w = &ws[i];
        let mut k: usize = 0;
        let ghost base = r@;
        while k < w.len()
            invariant
                k <= w.len(),
                r@ == base + w@.take(k as int),
            decreases w.len() - k,
        {
            push_char(&mut r, w[k]);
            k += 1;
            assert(r@ =~= base + w@.take(k as int));
        }
        assert(w@.take(w.len() as int) =~= w@);
        i += 1;
        proof {
            if i == 1 {
                assert(after.len() == 1);
                assert(r@ =~= seq!['/'] + slash_joined(after));
            } else {
                assert(r@ =~= seq!['/'] + slash_joined(after));
            }
        }
    }
    r
}

/// No two `/` stand side by side in `s`.
pub open spec fn no_double_slash(s: Seq<char>) -> bool {
    forall|i: int| 0 <= i < s.len() - 1 ==> !(#[trigger] s[i] == '/' && s[i + 1] == '/')
}

/// A name that joins onto a directory as one last component: not empty, without
/// `/`, and without whitespace at either end.
pub open spec fn plain_name(name: Seq<char>) -> bool {
    &&& name.len() > 0
    &&& !has_char(name, '/')
    &&& !is_white(name[0])
    &&& !is_white(name.last())
}

/// How splitting `s` on `/` stands after reading all of `s`, for `s` without a
/// leading `/` or doubled `/`: the finished words joined back give `s` up to the
/// word being read.
spec fn words_shape(s: Seq<char>) -> bool {
    let (w, cur) = words_state(s);
    if s.len() == 0 {
        w.len() == 0 && cur.len() == 0
    } else if s.last() == '/' {
        cur.len() == 0 && w.len() > 0 && slash_joined(w) + seq!['/'] == s
    } else {
        cur.len() > 0 && (if w.len() == 0 { cur == s } else { slash_joined(w) + seq!['/'] + cur == s })
    }
}

proof fn lemma_slash_joined_push(w: Seq<Seq<char>>, x: Seq<char>)
    ensures
        slash_joined(w.push(x)) == (if w.len() == 0 { x } else { slash_joined(w) + seq!['/'] + x }),
{
    assert(w.push(x).drop_last() =~= w);
    if w.len() == 0 {
        assert(w.push(x).len() == 1);
    }
}

proof fn lemma_words_shape(s: Seq<char>)
    requires
        s.len() > 0 ==> s[0] != '/',
        no_double_slash(s),
    ensures
        words_shape(s),
    decreases s.len(),
{
    if s.len() > 0 {
        let s0 = s.drop_last();
        assert(no_double_slash(s0)) by {
            assert forall|i: int| 0 <= i < s0.len() - 1 implies !(#[trigger] s0[i] == '/' && s0[i + 1] == '/') by {
                assert(s0[i] == s[i] && s0[i + 1] == s[i + 1]);
            }
        }
        if s0.len() > 0 {
            assert(s0[0] == s[0]);
        }
        lemma_words_shape(s0);
        let (w0, cur0) = words_state(s0);
        let c = s.last();
        assert(s =~= s0.push(c));
        if c == '/' {
            assert(s0.len() > 0);
            assert(s0.last() == s[s.len() - 2]);
            assert(s0.last() != '/');
            lemma_slash_joined_push(w0, cur0);
            assert(slash_joined(w0.push(cur0)) == s0);
            assert(slash_joined(w0.push(cur0)) + seq!['/'] =~= s);
        } else {
            if s0.len() == 0 {
                assert(cur0.push(c) =~= s);
            } else if s0.last() == '/' {
                assert(cur0.push(c) =~= seq![c]);
                assert(slash_joined(w0) + seq!['/'] + cur0.push(c) =~= s);
            } else if w0.len() == 0 {
                assert(cur0.push(c) =~= s);
            } else {
                assert(slash_joined(w0) + seq!['/'] + cur0.push(c) =~= (slash_joined(w0) + seq!['/'] + cur0).push(c));
            }
        }
    }
}

proof fn lemma_words_state_after_root(s: Seq<char>)
    ensures
        words_state(seq!['/'] + s) == words_state(s),
    decreases s.len(),
{
    if s.len() == 0 {
        assert(seq!['/'] + s =~= seq!['/']);
        assert(seq!['/'].drop_last() =~= Seq::<char>::empty());
        let root = seq!['/'];
        assert(root.last() == '/');
        assert(words_state(root.drop_last()) == (Seq::<Seq<char>>::empty(), Seq::<char>::empty()));
        assert(words_state(root) == (Seq::<Seq<char>>::empty(), Seq::<char>::empty()));
    } else {
        lemma_words_state_after_root(s.drop_last());
        assert((seq!['/'] + s).drop_last() =~= seq!['/'] + s.drop_last());
        assert((seq!['/'] + s).last() == s.last());
    }
}

proof fn lemma_words_state_word(x: Seq<char>, y: Seq<char>)
    requires
        !has_char(y, '/'),
    ensures
        words_state(x + y) == (words_state(x).0, words_state(x).1 + y),
    decreases y.len(),
{
    if y.len() == 0 {
        assert(x + y =~= x);
        assert(words_state(x).1 + y =~= words_state(x).1);
    } else {
        let y0 = y.drop_last();
        assert(!has_char(y0, '/')) by {
            if has_char(y0, '/') {
                let i = choose|i: int| 0 <= i < y0.len() && y0[i] == '/';
                assert(y[i] == '/');
            }
        }
        lemma_words_state_word(x, y0);
        assert((x + y).drop_last() =~= x + y0);
        assert(y.last() == y[y.len() - 1]);
        assert((words_state(x).1 + y0).push(y.last()) =~= words_state(x).1 + y);
    }
}

/// The parent of an entry is the directory it was joined onto: for a directory
/// that normalising leaves unchanged and that has no doubled `/`, and a plain name.
pub proof fn lemma_parent_of_child(dir: Seq<char>, name: Seq<char>)
    requires
        normalized(dir) == dir,
        no_double_slash(dir),
        plain_name(name),
    ensures
        parent_of(joined(dir, name)) == Some(dir),
{
    let c = joined(dir, name);
    assert(name[0] != '/');
    assert(name.last() == name[name.len() - 1]);
    assert(name.last() != '/');
    if dir == seq!['/'] {
        assert(c =~= seq!['/'] + name);
        assert(c[0] == '/');
        assert(c.last() == name.last());
        assert(trim_start(c) == c);
        assert(trim_end(c) == c);
        assert(c.drop_first() =~= name);
        assert(strip_start_char(name, '/') == name);
        assert(strip_start_char(c, '/') == name);
        assert(strip_end_char(name, '/') == name);
        assert(c != seq!['/']) by { assert(c.len() >= 2); }
        assert(normalized(c) == c);
        lemma_words_state_after_root(name);
        lemma_words_state_word(Seq::<char>::empty(), name);
        assert(Seq::<char>::empty() + name =~= name);
        assert(Seq::<char>::empty() + name =~= name);
        assert(words(c) =~= seq![name]);
    } else {
        let t = trim(dir);
        let u = strip_start_char(t, '/');
        let rest = strip_end_char(u, '/');
        lemma_strip_start_shape(t, '/');
        lemma_strip_end_shape(u, '/');
        assert(dir =~= seq!['/'] + rest);
        assert(rest.len() > 0) by {
            if rest.len() == 0 {
                assert(dir =~= seq!['/']);
            }
        }
        assert(rest[0] == u[0]);
        assert(rest.last() == rest[rest.len() - 1]);
        assert(dir.last() == rest.last());
        assert(no_double_slash(rest)) by {
            assert forall|i: int| 0 <= i < rest.len() - 1 implies !(#[trigger] rest[i] == '/' && rest[i + 1] == '/') by {
                assert(rest[i] == dir[i + 1] && rest[i + 1] == dir[i + 2]);
            }
        }
        lemma_words_shape(rest);
        let (wr, cr) = words_state(rest);
        lemma_slash_joined_push(wr, cr);
        assert(slash_joined(words(rest)) == rest);
        assert(strip_end_char(dir, '/') == dir);
        let tail = rest + seq!['/'] + name;
        assert(c =~= seq!['/'] + tail);
        assert(c[0] == '/');
        assert(c.last() == name.last());
        assert(trim_start(c) == c);
        assert(trim_end(c) == c);
        assert(c.drop_first() =~= tail);
        assert(tail[0] == rest[0]);
        assert(strip_start_char(tail, '/') == tail);
        assert(strip_start_char(c, '/') == tail);
        assert(tail.last() == name.last());
        assert(strip_end_char(tail, '/') == tail);
        assert(c != seq!['/']) by { assert(c.len() >= 3); }
        assert(normalized(c) == c);
        lemma_words_state_after_root(tail);
        lemma_words_state_word(rest + seq!['/'], name);
        assert((rest + seq!['/']).drop_last() =~= rest);
        assert(words_state(rest + seq!['/']) == (wr.push(cr), Seq::<char>::empty()));
        assert(Seq::<char>::empty() + name =~= name);
        assert(words(c) == words(rest).push(name));
        assert(words(c).drop_last() =~= words(rest));
    }
}

proof fn lemma_strip_start_shape(x: Seq<char>, c: char)
    ensures
        strip_start_char(x, c).len() <= x.len(),
        strip_start_char(x, c) =~= x.skip(x.len() - strip_start_char(x, c).len()),
        strip_start_char(x, c).len() > 0 ==> strip_start_char(x, c)[0] != c,
    decreases x.len(),
{
    if x.len() > 0 && x[0] == c {
        lemma_strip_start_shape(x.drop_first(), c);
        assert(x.drop_first().skip(x.drop_first().len() - strip_start_char(x, c).len())
            =~= x.skip(x.len() - strip_start_char(x, c).len()));
    } else {
        assert(x.skip(0) =~= x);
    }
}

proof fn lemma_strip_end_shape(x: Seq<char>, c: char)
    ensures
        strip_end_char(x, c).len() <= x.len(),
        strip_end_char(x, c) =~= x.take(strip_end_char(x, c).len() as int),
        strip_end_char(x, c).len() > 0 ==> strip_end_char(x, c).last() != c,
    decreases x.len(),
{
    if x.len() > 0 && x.last() == c {
        lemma_strip_end_shape(x.drop_last(), c);
        assert(x.drop_last().take(strip_end_char(x, c).len() as int) =~= x.take(strip_end_char(x, c).len() as int));
    } else {
        assert(x.take(x.len() as int) =~= x);
    }
}

/// The remote pane's operations and paths.
pub struct RemoteSftpEngine;

impl RemoteSftpEngine {
    /// The parent of a remote path, or none for the root.
    pub fn parent_path(path: &str) -> (r: Option<String>)
        ensures
            match r {
                Some(p) => parent_of(path@) == Some(p@),
                None => parent_of(path@) is None,
            },
    {
        let canonical = normalize_remote_path(path);
        proof {
            reveal_strlit("/");
            assert("/"@ =~= seq!['/']);
        }
        if same_text(canonical.as_str(), "/") {
            return None;
        }
        let ws = split_words(canonical.as_str());
        let ghost full = words(canonical@);
        proof {
            assert(ws@.map_values(|w: Vec<char>| w@) =~= full);
        }
        if ws.len() <= 1 {
            return Some(owned("/"));
        }
        let n = ws.len() - 1;
        let r = rooted_join(&ws, n);
        proof {
            assert(ws@.take(n as int).map_values(|w: Vec<char>| w@) =~= full.drop_last());
        }
        Some(r)
    }

    /// The remote pane before any connection.
    pub fn placeholder() -> (r: crate::models::PaneSnapshot)
        ensures
            crate::models::is_remote_placeholder(r),
    {
        crate::models::AppBootstrap::remote_placeholder()
    }
}

/// The path to list for a requested path: the trimmed request, or `.` when it is blank.
pub open spec fn operation_path_of(requested: Seq<char>) -> Seq<char> {
    if trim(requested).len() == 0 { seq!['.'] } else { trim(requested) }
}

/// The path to list for a requested path.
pub fn operation_path(requested: &str) -> (r: String)
    ensures
        r@ == operation_path_of(requested@),
{
    let t = trimmed(requested);
    if t.as_str().is_empty() {
        proof {
            reveal_strlit(".");
        }
        owned(".")
    } else {
        t
    }
}

/// The message for a remote path that could not be opened or listed.
pub open spec fn path_error_text(action: Seq<char>, path: Seq<char>) -> Seq<char> {
    if action == "open"@ {
        "Unable to open remote path `"@ + path + "`."@
    } else {
        "Unable to list remote directory `"@ + path + "`."@
    }
}

/// The message for a remote path that could not be opened or listed.
pub fn friendly_path_error(action: &str, path: &str) -> (r: String)
    ensures
        r@ == path_error_text(action@, path@),
{
    let mut r = if same_text(action, "open") {
        owned("Unable to open remote path `")
    } else {
        owned("Unable to list remote directory `")
    };
    push_str(&mut r, path);
    push_str(&mut r, "`.");
    r
}

/// A name that a remote entry may be given: not blank, and without `/` or NUL.
pub open spec fn valid_entry_name(name: Seq<char>) -> bool {
    trim(name).len() > 0 && !has_char(name, '/') && !has_char(name, '\0')
}

/// Checks a name for a new or renamed remote entry.
pub fn validate_entry_name(name: &str) -> (r: Result<String, String>)
    ensures
        valid_entry_name(name@) ==> (r matches Ok(n) && n@ == name@),
        !valid_entry_name(name@) ==> (r matches Err(e) && e@ == "invalid target name"@),
{
    if trimmed(name).as_str().is_empty() || crate::text::contains_char(name, '/') || crate::text::contains_char(name, '\0') {
        Err(owned("invalid target name"))
    } else {
        Ok(owned(name))
    }
}

/// The path of entry `name` in remote directory `parent`, for a valid name.
pub fn child_path(parent: &str, name: &str) -> (r: Result<String, String>)
    ensures
        valid_entry_name(name@) ==> (r matches Ok(p) && p@ == joined(parent@, name@)),
        !valid_entry_name(name@) ==> (r matches Err(e) && e@ == "invalid target name"@),
{
    match validate_entry_name(name) {
        Ok(n) => Ok(join_remote_path(parent, n.as_str())),
        Err(e) => Err(e),
    }
}

/// Succeeds only for a directory entry kind ("dir").
pub fn require_directory(entry_kind: &str) -> (r: Result<(), String>)
    ensures
        r is Ok <==> entry_kind@ == "dir"@,
        r matches Err(e) ==> e@ == "remote entry is not a directory"@,
{
    if same_text(entry_kind, "dir") {
        Ok(())
    } else {
        Err(owned("remote entry is not a directory"))
    }
}

} // verus!
