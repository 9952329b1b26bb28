//! Plain-value model of a parsed URL, and the single trusted call into the
//! URL parser that fills it.  Everything the classifier reads — host, path
//! segments, query — is held here as plain strings, so the classification
//! logic itself is verified; rebuilding a URL string from the model is
//! verified code as well.

use vstd::prelude::*;

verus! {

/// What the classifier reads out of a parsed absolute URL.
///
/// `host` is the registrable domain name, `None` when the host is not a
/// domain (an IP address, or no host at all).  `segments` is the path split
/// at `/` separators, `None` when the URL has no rooted path (a
/// cannot-be-a-base URL such as `mailto:`).  `port` is the explicit port,
/// absent when it is the scheme's default.  `query` and `fragment` are kept
/// raw (percent-encoded) for faithful reconstruction, while `query_pairs`
/// holds the decoded key/value pairs in order.
pub struct UrlParts {
    pub scheme: String,
    pub host: Option<String>,
    pub port: Option<u16>,
    pub segments: Option<Vec<String>>,
    pub query: Option<String>,
    pub fragment: Option<String>,
    pub query_pairs: Vec<(String, String)>,
}

/// The model of the URL that the string `s` parses to, or `None` when `s` is
/// not an absolute URL.  Parsing is a function of the string alone.
pub uninterp spec fn parsed_url_of(s: Seq<char>) -> Option<UrlParts>;

/// Relies on `url::Url::parse` and the accessors `scheme`, `domain`, `port`,
/// `path_segments`, `query`, `fragment` and `query_pairs` of `url::Url`:
/// together they are a pure function of the input string, read out here into
/// plain values.
#[verifier::external_body]
pub(crate) fn parse_url(s: &str) -> (r: Option<UrlParts>)
    ensures
        r == parsed_url_of(s@),
{
    let u = match url::Url::parse(s) {
        Ok(u) => u,
        Err(_) => return None,
    };
    Some(UrlParts {
        scheme: u.scheme().to_string(),
        host: u.domain().map(|d| d.to_string()),
        port: u.port(),
        segments: u.path_segments().map(|it| it.map(|x| x.to_string()).collect()),
        query: u.query().map(|q| q.to_string()),
        fragment: u.fragment().map(|f| f.to_string()),
        query_pairs: u.query_pairs().map(|p| (p.0.into_owned(), p.1.into_owned())).collect(),
    })
}

/// Character-wise string equality.
pub fn str_eq(a: &str, b: &str) -> (r: bool)
    ensures
        r == (a@ == b@),
{
    let la = a.unicode_len();
    let lb = b.unicode_len();
    if la != lb {
        return false;
    }
    let mut i: usize = 0;
    while i < la
        invariant
            i <= la,
            la == a@.len(),
            la == b@.len(),
            forall|j: int| 0 <= j < i ==> a@[j] == b@[j],
        decreases la - i,
    {
        if a.get_char(i) != b.get_char(i) {
            return false;
        }
        i += 1;
    }
    proof {
        assert(a@ =~= b@);
    }
    true
}

pub open spec fn opt_view(o: Option<String>) -> Option<Seq<char>> {
    match o {
        None => None,
        Some(x) => Some(x@),
    }
}

pub open spec fn seg_views(segs: Seq<String>) -> Seq<Seq<char>> {
    Seq::new(segs.len(), |i: int| segs[i]@)
}

pub open spec fn dec_char(d: int) -> char {
    if d == 0 { '0' }
    else if d == 1 { '1' }
    else if d == 2 { '2' }
    else if d == 3 { '3' }
    else if d == 4 { '4' }
    else if d == 5 { '5' }
    else if d == 6 { '6' }
    else if d == 7 { '7' }
    else if d == 8 { '8' }
    else { '9' }
}

/// The decimal numeral of `n`, most significant digit first, no leading zero.
pub open spec fn dec_str(n: nat) -> Seq<char>
    decreases n,
{
    if n < 10 {
        seq![dec_char(n as int)]
    } else {
        dec_str(n / 10).push(dec_char((n % 10) as int))
    }
}

fn push_dec_digit(s: &mut String, d: u8)
    requires
        d < 10,
    ensures
        final(s)@ == old(s)@.push(dec_char(d as int)),
{
    if d == 0 {
        proof { reveal_strlit("0"); assert(old(s)@ + "0"@ =~= old(s)@.push('0')); }
        s.append("0");
    } else if d == 1 {
        proof { reveal_strlit("1"); assert(old(s)@ + "1"@ =~= old(s)@.push('1')); }
        s.append("1");
    } else if d == 2 {
        proof { reveal_strlit("2"); assert(old(s)@ + "2"@ =~= old(s)@.push('2')); }
        s.append("2");
    } else if d == 3 {
        proof { reveal_strlit("3"); assert(old(s)@ + "3"@ =~= old(s)@.push('3')); }
        s.append("3");
    } else if d == 4 {
        proof { reveal_strlit("4"); assert(old(s)@ + "4"@ =~= old(s)@.push('4')); }
        s.append("4");
    } else if d == 5 {
        proof { reveal_strlit("5"); assert(old(s)@ + "5"@ =~= old(s)@.push('5')); }
        s.append("5");
    } else if d == 6 {
        proof { reveal_strlit("6"); assert(old(s)@ + "6"@ =~= old(s)@.push('6')); }
        s.append("6");
    } else if d == 7 {
        proof { reveal_strlit("7"); assert(old(s)@ + "7"@ =~= old(s)@.push('7')); }
        s.append("7");
    } else if d == 8 {
        proof { reveal_strlit("8"); assert(old(s)@ + "8"@ =~= old(s)@.push('8')); }
        s.append("8");
    } else {
        proof { reveal_strlit("9"); assert(old(s)@ + "9"@ =~= old(s)@.push('9')); }
        s.append("9");
    }
}

/// Appends the decimal numeral of `n`.
fn push_dec(s: &mut String, n: u16)
    ensures
        final(s)@ == old(s)@ + dec_str(n as nat),
    decreases n,
{
    if n < 10 {
        push_dec_digit(s, n as u8);
        proof {
            assert(old(s)@.push(dec_char(n as int)) =~= old(s)@ + dec_str(n as nat));
        }
    } else {
        push_dec(s, n / 10);
        push_dec_digit(s, (n % 10) as u8);
        proof {
            assert((old(s)@ + dec_str((n / 10) as nat)).push(dec_char((n % 10) as int))
                =~= old(s)@ + dec_str(n as nat));
        }
    }
}

/// The path part: a `/` before every segment.
pub open spec fn segs_string(segs: Seq<Seq<char>>) -> Seq<char>
    decreases segs.len(),
{
    if segs.len() == 0 {
        Seq::empty()
    } else {
        segs_string(segs.drop_last()) + seq!['/'] + segs.last()
    }
}

/// The serialization of a URL from its parts: scheme, `://`, host, an
/// optional `:port`, the path segments each preceded by `/`, then the raw
/// query after `?` and the raw fragment after `#` when present.
pub open spec fn url_string_spec(
    scheme: Seq<char>,
    host: Seq<char>,
    port: Option<u16>,
    segs: Seq<Seq<char>>,
    query: Option<Seq<char>>,
    fragment: Option<Seq<char>>,
) -> Seq<char> {
    scheme + seq![':', '/', '/'] + host + (match port {
        None => Seq::<char>::empty(),
        Some(p) => seq![':'] + dec_str(p as nat),
    }) + segs_string(segs) + (match query {
        None => Seq::<char>::empty(),
        Some(q) => seq!['?'] + q,
    }) + (match fragment {
        None => Seq::<char>::empty(),
        Some(f) => seq!['#'] + f,
    })
}

/// Builds the URL string of the given parts.
pub fn build_url_string(
    scheme: &str,
    host: &str,
    port: Option<u16>,
    segs: &Vec<String>,
    query: &Option<String>,
    fragment: &Option<String>,
) -> (r: String)
    ensures
        r@ == url_string_spec(
            scheme@,
            host@,
            port,
            seg_views(segs@),
            opt_view(*query),
            opt_view(*fragment),
        ),
{
    let mut s = String::new();
    s.append(scheme);
    proof { reveal_strlit("://"); }
    s.append("://");
    s.append(host);
    match port {
        None => {},
        Some(p) => {
            proof { reveal_strlit(":"); }
            s.append(":");
            proof {
                assert(s@ =~= scheme@ + seq![':', '/', '/'] + host@ + seq![':']);
            }
            push_dec(&mut s, p);
        },
    }
    proof {
        assert(s@ =~= scheme@ + seq![':', '/', '/'] + host@ + (match port {
            None => Seq::<char>::empty(),
            Some(p) => seq![':'] + dec_str(p as nat),
        }));
    }
    let ghost head: Seq<char> = s@;
    let mut i: usize = 0;
    while i < segs.len()
        invariant
            i <= segs@.len(),
            s@ == head + segs_string(seg_views(segs@).subrange(0, i as int)),
        decreases segs@.len() - i,
    {
        proof { reveal_strlit("/"); }
        s.append("/");
        s.append(segs[i].as_str());
        proof {
            let sv = seg_views(segs@);
            assert(sv.subrange(0, i + 1).drop_last() =~= sv.subrange(0, i as int));
            assert(s@ =~= head + segs_string(sv.subrange(0, i + 1)));
        }
        i += 1;
    }
    proof {
        assert(seg_views(segs@).subrange(0, segs@.len() as int) =~= seg_views(segs@));
    }
    match query {
        None => {},
        Some(q) => {
            proof { reveal_strlit("?"); }
            s.append("?");
            s.append(q.as_str());
        },
    }
    match fragment {
        None => {},
        Some(f) => {
            proof { reveal_strlit("#"); }
            s.append("#");
            s.append(f.as_str());
        },
    }
    proof {
        assert(s@ =~= url_string_spec(
            scheme@,
            host@,
            port,
            seg_views(segs@),
            opt_view(*query),
            opt_view(*fragment),
        ));
    }
    s
}

} // verus!
