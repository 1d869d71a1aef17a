//! Assembly of a concrete HTTP request from a payload.
use vstd::prelude::*;
use vstd::string::StrSliceExecFns;
use crate::json::Json;
use crate::payload::{prepared, Method, Operation, Payload};
use crate::schema::{GenError, Schema};

verus! {

/// Why a payload could not be turned into a request.
#[derive(Clone, Copy, Debug, PartialEq, Eq, Structural)]
pub enum BuildError {
    /// The path template names a placeholder that no path parameter fills.
    UnresolvedPlaceholder,
    /// The base address and the path do not join into a URL.
    BadUrl,
}

/// A request ready to send: the method, the full URL, query entries in order
/// (repeated names kept), headers (a `Cookie` header last, when the payload
/// has cookies), and the JSON body, if any.
#[derive(Debug)]
pub struct HttpRequest {
    pub method: Method,
    pub url: String,
    pub query: Vec<(String, String)>,
    pub headers: Vec<(String, String)>,
    pub body: Option<Json>,
}

/// `a` before what `o` holds, or nothing where `o` is nothing.
pub open spec fn prefixed(a: Seq<char>, o: Option<Seq<char>>) -> Option<Seq<char>> {
    match o {
        Some(r) => Some(a + r),
        None => None,
    }
}

/// The value of the first pair named `name`.
pub open spec fn lookup(ps: Seq<(String, String)>, name: Seq<char>) -> Option<Seq<char>>
    decreases ps.len(),
{
    if ps.len() == 0 {
        None
    } else if ps[0].0@ == name {
        Some(ps[0].1@)
    } else {
        lookup(ps.skip(1), name)
    }
}

/// The index of the first `}` in `t` at or after `j`.
pub open spec fn close_from(t: Seq<char>, j: int) -> Option<int>
    decreases t.len() - j,
{
    if j < 0 || j >= t.len() {
        None
    } else if t[j] == '}' {
        Some(j)
    } else {
        close_from(t, j + 1)
    }
}

/// The substitution of `t` from position `i` on: each `{name}` is replaced by
/// the value of the first path parameter of that name; a `{` with no `}` after
/// it is kept as it is; a placeholder that no parameter fills leaves nothing.
pub open spec fn subst_from(t: Seq<char>, i: int, ps: Seq<(String, String)>) -> Option<Seq<char>>
    decreases t.len() - i,
{
    if i < 0 || i >= t.len() {
        Some(Seq::empty())
    } else if t[i] == '{' && close_from(t, i + 1) is Some && i < close_from(t, i + 1)->0 < t.len() {
        let k = close_from(t, i + 1)->0;
        match lookup(ps, t.subrange(i + 1, k)) {
            Some(v) => prefixed(v, subst_from(t, k + 1, ps)),
            None => None,
        }
    } else {
        prefixed(seq![t[i]], subst_from(t, i + 1, ps))
    }
}

/// No `{` in `s` is followed, anywhere later, by a `}`: no placeholder is left.
pub open spec fn no_placeholder(s: Seq<char>) -> bool {
    forall|a: int, b: int| 0 <= a < b < s.len() && s[a] == '{' ==> s[b] != '}'
}

/// `s` holds neither `{` nor `}`.
pub open spec fn brace_free(s: Seq<char>) -> bool {
    forall|q: int| 0 <= q < s.len() ==> s[q] != '{' && s[q] != '}'
}

/// No parameter value holds a brace.
pub open spec fn values_brace_free(ps: Seq<(String, String)>) -> bool {
    forall|k: int| 0 <= k < ps.len() ==> brace_free((#[trigger] ps[k]).1@)
}

proof fn lemma_close_from_bounds(t: Seq<char>, j: int)
    requires
        0 <= j,
    ensures
        match close_from(t, j) {
            Some(k) => j <= k < t.len() && t[k] == '}',
            None => forall|q: int| j <= q < t.len() ==> t[q] != '}',
        },
    decreases t.len() - j,
{
    if j < t.len() && t[j] != '}' {
        lemma_close_from_bounds(t, j + 1);
    }
}

proof fn lemma_lookup_brace_free(ps: Seq<(String, String)>, name: Seq<char>)
    requires
        values_brace_free(ps),
        lookup(ps, name) is Some,
    ensures
        brace_free(lookup(ps, name)->Some_0),
    decreases ps.len(),
{
    if ps[0].0@ != name {
        assert forall|k: int| 0 <= k < ps.skip(1).len() implies brace_free((#[trigger] ps.skip(1)[k]).1@) by {
            assert(ps.skip(1)[k] == ps[k + 1]);
        }
        lemma_lookup_brace_free(ps.skip(1), name);
    }
}

proof fn lemma_subst_from_no_placeholder(t: Seq<char>, i: int, ps: Seq<(String, String)>)
    requires
        0 <= i,
        values_brace_free(ps),
        subst_from(t, i, ps) is Some,
    ensures
        no_placeholder(subst_from(t, i, ps)->Some_0),
        (forall|q: int| i <= q < t.len() ==> t[q] != '}') ==> (forall|q: int|
            0 <= q < subst_from(t, i, ps)->Some_0.len() ==> subst_from(t, i, ps)->Some_0[q] != '}'),
    decreases t.len() - i,
{
    if i >= t.len() {
        return;
    }
    lemma_close_from_bounds(t, i + 1);
    let o = subst_from(t, i, ps)->Some_0;
    if t[i] == '{' && close_from(t, i + 1) is Some && i < close_from(t, i + 1)->0 < t.len() {
        let k = close_from(t, i + 1)->0;
        let v = lookup(ps, t.subrange(i + 1, k))->Some_0;
        lemma_lookup_brace_free(ps, t.subrange(i + 1, k));
        lemma_subst_from_no_placeholder(t, k + 1, ps);
        let r = subst_from(t, k + 1, ps)->Some_0;
        assert(o == v + r);
        assert forall|a: int, b: int| 0 <= a < b < o.len() && o[a] == '{' implies o[b] != '}' by {
            if a < v.len() {
                assert(o[a] == v[a]);
            } else {
                assert(o[a] == r[a - v.len()]);
                assert(o[b] == r[b - v.len()]);
            }
        }
    } else {
        lemma_subst_from_no_placeholder(t, i + 1, ps);
        let r = subst_from(t, i + 1, ps)->Some_0;
        assert(o == seq![t[i]] + r);
        assert forall|a: int, b: int| 0 <= a < b < o.len() && o[a] == '{' implies o[b] != '}' by {
            assert(o[b] == r[b - 1]);
            if a > 0 {
                assert(o[a] == r[a - 1]);
            }
        }
        if forall|q: int| i <= q < t.len() ==> t[q] != '}' {
            assert forall|q: int| 0 <= q < o.len() implies o[q] != '}' by {
                if q > 0 {
                    assert(o[q] == r[q - 1]);
                }
            }
        }
    }
}

/// Path substitution leaves no placeholder behind: where no path parameter
/// value holds a brace, no `{` of a successfully built path is followed by a
/// `}`.
pub proof fn lemma_substitution_leaves_no_placeholder(t: Seq<char>, ps: Seq<(String, String)>)
    requires
        values_brace_free(ps),
        substitute(t, ps) is Some,
    ensures
        no_placeholder(substitute(t, ps)->Some_0),
{
    lemma_subst_from_no_placeholder(t, 0, ps);
}

/// The path that template `t` becomes with path parameters `ps`.
pub open spec fn substitute(t: Seq<char>, ps: Seq<(String, String)>) -> Option<Seq<char>> {
    subst_from(t, 0, ps)
}

/// One cookie as it stands in a `Cookie` header.
pub open spec fn pair_text(p: (String, String)) -> Seq<char> {
    p.0@ + seq!['='] + p.1@
}

/// The value of the `Cookie` header for the cookies `cs`: `name=value` pairs
/// joined by `; `.
pub open spec fn cookie_text(cs: Seq<(String, String)>) -> Seq<char>
    decreases cs.len(),
{
    if cs.len() == 0 {
        Seq::empty()
    } else if cs.len() == 1 {
        pair_text(cs[0])
    } else {
        cookie_text(cs.drop_last()) + seq![';', ' '] + pair_text(cs.last())
    }
}

/// The base address as a directory: with a trailing `/`, so that joining
/// keeps its path segments.
pub open spec fn base_dir(b: Seq<char>) -> Seq<char> {
    if b.len() > 0 && b.last() == '/' {
        b
    } else {
        b.push('/')
    }
}

/// A path made relative: without its leading `/`.
pub open spec fn relative(p: Seq<char>) -> Seq<char> {
    if p.len() > 0 && p[0] == '/' {
        p.skip(1)
    } else {
        p
    }
}

/// What parsing `base` as a URL and joining `reference` to it gives, as text.
pub uninterp spec fn url_join(base: Seq<char>, reference: Seq<char>) -> Option<Seq<char>>;

/// Relies on `url::Url::parse` of the base and `Url::join` of the reference:
/// the joined URL's text, or nothing where either fails; decided by the two
/// strings alone.
#[verifier::external_body]
fn join_url(base: &str, reference: &str) -> (r: Option<String>)
    ensures
        match r {
            Some(u) => url_join(base@, reference@) == Some(u@),
            None => url_join(base@, reference@) is None,
        },
{
    match url::Url::parse(base) {
        Ok(b) => match b.join(reference) {
            Ok(u) => Some(String::from(u.as_str())),
            Err(_) => None,
        },
        Err(_) => None,
    }
}

/// Relies on `String`'s `FromIterator<char>`: the characters in order.
#[verifier::external_body]
fn string_from_chars(v: &Vec<char>) -> (r: String)
    ensures
        r@ == v@,
{
    v.iter().collect()
}

/// The characters of `s`.
pub fn to_chars(s: &str) -> (r: Vec<char>)
    ensures
        r@ == s@,
{
    let n = s.unicode_len();
    let mut r: Vec<char> = Vec::new();
    let mut i: usize = 0;
    while i < n
        invariant
            n == s@.len(),
            i <= n,
            r@ == s@.take(i as int),
        decreases n - i,
    {
        r.push(s.get_char(i));
        i = i + 1;
        assert(r@ =~= s@.take(i as int));
    }
    assert(s@.take(n as int) =~= s@);
    r
}

/// Appends the characters of `v` to `out`.
fn append_chars(out: &mut Vec<char>, v: &Vec<char>)
    ensures
        final(out)@ == old(out)@ + v@,
{
    let mut i: usize = 0;
    while i < v.len()
        invariant
            i <= v@.len(),
            out@ == old(out)@ + v@.take(i as int),
        decreases v@.len() - i,
    {
        out.push(v[i]);
        i = i + 1;
        assert(out@ =~= old(out)@ + v@.take(i as int));
    }
    assert(v@.take(v@.len() as int) =~= v@);
}

/// Whether two character sequences are equal.
fn chars_equal(a: &Vec<char>, b: &Vec<char>) -> (r: bool)
    ensures
        r == (a@ == b@),
{
    if a.len() != b.len() {
        return false;
    }
    let mut i: usize = 0;
    while i < a.len()
        invariant
            a@.len() == b@.len(),
            i <= a@.len(),
            forall|q: int| 0 <= q < i ==> a@[q] == b@[q],
        decreases a@.len() - i,
    {
        if a[i] != b[i] {
            return false;
        }
        i = i + 1;
    }
    assert(a@ =~= b@);
    true
}

/// The value of the first pair named `name`.
fn lookup_value<'a>(ps: &'a Vec<(String, String)>, name: &Vec<char>) -> (r: Option<&'a String>)
    ensures
        match lookup(ps@, name@) {
            Some(v) => r is Some && r->Some_0@ == v,
            None => r is None,
        },
{
    let mut q: usize = 0;
    assert(ps@.skip(0) =~= ps@);
    while q < ps.len()
        invariant
            q <= ps@.len(),
            lookup(ps@.skip(q as int), name@) == lookup(ps@, name@),
        decreases ps@.len() - q,
    {
        assert(ps@.skip(q as int)[0] == ps@[q as int]);
        assert(ps@.skip(q as int).skip(1) =~= ps@.skip(q + 1));
        let n = to_chars(ps[q].0.as_str());
        if chars_equal(&n, name) {
            return Some(&ps[q].1);
        }
        q = q + 1;
    }
    None
}

proof fn lemma_prefixed_assoc(a: Seq<char>, b: Seq<char>, o: Option<Seq<char>>)
    ensures
        prefixed(a, prefixed(b, o)) == prefixed(a + b, o),
{
    if o is Some {
        assert(a + (b + o->Some_0) =~= (a + b) + o->Some_0);
    }
}

/// Replaces each `{name}` placeholder of `template` by the value of the first
/// path parameter named `name`; fails where a placeholder is left unfilled.
pub fn substitute_path(template: &String, params: &Vec<(String, String)>) -> (r: Result<String, BuildError>)
    ensures
        match substitute(template@, params@) {
            Some(p) => r is Ok && r->Ok_0@ == p,
            None => r == Err::<String, BuildError>(BuildError::UnresolvedPlaceholder),
        },
{
    let t = to_chars(template.as_str());
    let n = t.len();
    let mut out: Vec<char> = Vec::new();
    let mut i: usize = 0;
    assert(out@ + Seq::<char>::empty() =~= Seq::<char>::empty());
    while i < n
        invariant
            n == t@.len(),
            t@ == template@,
            i <= n,
            substitute(t@, params@) == prefixed(out@, subst_from(t@, i as int, params@)),
        decreases n - i,
    {
        let ghost old_out = out@;
        let mut j: usize = i + 1;
        let mut found = false;
        if t[i] == '{' {
            while j < n && t[j] != '}'
                invariant
                    n == t@.len(),
                    i < j <= n,
                    close_from(t@, i + 1) == close_from(t@, j as int),
                decreases n - j,
            {
                j = j + 1;
            }
            found = j < n;
        }
        if found {
            assert(close_from(t@, i + 1) == Some(j as int));
            let mut name: Vec<char> = Vec::new();
            let mut q: usize = i + 1;
            while q < j
                invariant
                    i < q <= j < n,
                    n == t@.len(),
                    name@ == t@.subrange(i + 1, q as int),
                decreases j - q,
            {
                name.push(t[q]);
                q = q + 1;
                assert(name@ =~= t@.subrange(i + 1, q as int));
            }
            match lookup_value(params, &name) {
                Some(v) => {
                    let vc = to_chars(v.as_str());
                    append_chars(&mut out, &vc);
                    proof {
                        lemma_prefixed_assoc(old_out, vc@, subst_from(t@, j + 1, params@));
                    }
                    i = j + 1;
                },
                None => {
                    return Err(BuildError::UnresolvedPlaceholder);
                },
            }
        } else {
            proof {
                if t@[i as int] == '{' {
                    assert(close_from(t@, n as int) is None);
                }
                lemma_prefixed_assoc(old_out, seq![t@[i as int]], subst_from(t@, i + 1, params@));
            }
            out.push(t[i]);
            assert(out@ =~= old_out + seq![t@[i as int]]);
            i = i + 1;
        }
    }
    assert(out@ + Seq::<char>::empty() =~= out@);
    Ok(string_from_chars(&out))
}

/// The value of the `Cookie` header for `cookies`.
pub fn cookie_header(cookies: &Vec<(String, String)>) -> (r: String)
    ensures
        r@ == cookie_text(cookies@),
{
    let mut out: Vec<char> = Vec::new();
    let mut i: usize = 0;
    while i < cookies.len()
        invariant
            i <= cookies@.len(),
            out@ == cookie_text(cookies@.take(i as int)),
        decreases cookies@.len() - i,
    {
        let ghost before = out@;
        if i > 0 {
            out.push(';');
            out.push(' ');
        }
        let name = to_chars(cookies[i].0.as_str());
        append_chars(&mut out, &name);
        out.push('=');
        let value = to_chars(cookies[i].1.as_str());
        append_chars(&mut out, &value);
        proof {
            let next = cookies@.take(i + 1);
            assert(next.drop_last() =~= cookies@.take(i as int));
            assert(next.last() == cookies@[i as int]);
            if i == 0 {
                assert(out@ =~= pair_text(next[0]));
            } else {
                assert(out@ =~= before + seq![';', ' '] + pair_text(next.last()));
            }
        }
        i = i + 1;
    }
    assert(cookies@.take(cookies@.len() as int) =~= cookies@);
    string_from_chars(&out)
}

/// The URL that a request for `path` goes to, on the base address `base`.
pub open spec fn target_url(base: Seq<char>, path: Seq<char>) -> Option<Seq<char>> {
    url_join(base_dir(base), relative(path))
}

/// `req` is the request built from `p` on the base address `base`.
pub open spec fn request_for(base: Seq<char>, p: Payload, req: HttpRequest) -> bool {
    let cookie = cookie_text(p.cookies@);
    &&& substitute(p.path@, p.path_params@) is Some
    &&& target_url(base, substitute(p.path@, p.path_params@)->Some_0) == Some(req.url@)
    &&& req.method == p.method
    &&& req.query@ == p.query_params@
    &&& req.headers@.len() == p.headers@.len() + (if p.cookies@.len() > 0 { 1int } else { 0 })
    &&& forall|i: int| 0 <= i < p.headers@.len() ==> #[trigger] req.headers@[i] == p.headers@[i]
    &&& p.cookies@.len() > 0 ==> req.headers@.last().0@ == seq!['C', 'o', 'o', 'k', 'i', 'e']
        && req.headers@.last().1@ == cookie
    &&& if p.body@.len() > 0 {
        req.body == Some(p.body@[0])
    } else {
        req.body is None
    }
}

/// What building a request from `p` on `base` owes: the request for it
/// exactly when the path resolves and joins; otherwise the error that says
/// which of the two failed.
pub open spec fn built(base: Seq<char>, p: Payload, r: Result<HttpRequest, BuildError>) -> bool {
    match substitute(p.path@, p.path_params@) {
        None => r == Err::<HttpRequest, BuildError>(BuildError::UnresolvedPlaceholder),
        Some(path) => match target_url(base, path) {
            None => r == Err::<HttpRequest, BuildError>(BuildError::BadUrl),
            Some(_) => r is Ok && request_for(base, p, r->Ok_0),
        },
    }
}

/// The base address with a trailing `/`.
fn as_base_dir(base: &String) -> (r: String)
    ensures
        r@ == base_dir(base@),
{
    let mut c = to_chars(base.as_str());
    let n = c.len();
    if n == 0 || c[n - 1] != '/' {
        c.push('/');
    }
    string_from_chars(&c)
}

/// The path without its leading `/`.
fn as_relative(path: &String) -> (r: String)
    ensures
        r@ == relative(path@),
{
    let c = to_chars(path.as_str());
    if c.len() > 0 && c[0] == '/' {
        let mut rest: Vec<char> = Vec::new();
        let mut i: usize = 1;
        while i < c.len()
            invariant
                1 <= i <= c@.len(),
                rest@ == c@.subrange(1, i as int),
            decreases c@.len() - i,
        {
            rest.push(c[i]);
            i = i + 1;
            assert(rest@ =~= c@.subrange(1, i as int));
        }
        assert(rest@ =~= c@.skip(1));
        string_from_chars(&rest)
    } else {
        string_from_chars(&c)
    }
}

/// Builds the request for `payload` on the base address `base`: the path
/// template filled in, joined under the base's path, the query entries and
/// headers as generated, the cookies in one `Cookie` header, and the first
/// body value, if any, as the JSON body.
pub fn build_request(base: &String, payload: Payload) -> (r: Result<HttpRequest, BuildError>)
    ensures
        built(base@, payload, r),
{
    let ghost p = payload;
    let path = match substitute_path(&payload.path, &payload.path_params) {
        Ok(v) => v,
        Err(e) => {
            return Err(e);
        },
    };
    let url = match join_url(as_base_dir(base).as_str(), as_relative(&path).as_str()) {
        Some(u) => u,
        None => {
            return Err(BuildError::BadUrl);
        },
    };
    let Payload { method, path: _, query_params, path_params: _, mut headers, cookies, mut body, responses: _ } =
        payload;
    if cookies.len() > 0 {
        let value = cookie_header(&cookies);
        let name = string_from_chars(&vec!['C', 'o', 'o', 'k', 'i', 'e']);
        headers.push((name, value));
    }
    let first = if body.len() > 0 {
        Some(body.remove(0))
    } else {
        None
    };
    let req = HttpRequest { method, url, query: query_params, headers, body: first };
    assert(request_for(base@, p, req));
    Ok(req)
}

/// When an operation declares no request body, preparing a payload for it
/// succeeds with an empty body, and the request built from that payload
/// carries no body.
pub proof fn lemma_no_body_declared(
    method: Method,
    path: Seq<char>,
    op: Operation,
    schema: Schema,
    p: Result<Payload, GenError>,
    base: Seq<char>,
    req: Result<HttpRequest, BuildError>,
)
    requires
        op.request_body is None,
        prepared(method, path, op, schema, p),
        p is Ok ==> built(base, p->Ok_0, req),
    ensures
        p is Ok,
        p->Ok_0.body@.len() == 0,
        req is Ok ==> req->Ok_0.body is None,
{
}

} // verus!
