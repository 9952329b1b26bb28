//! URL classifier: decides whether a media URL refers to a supported video,
//! and if so produces the canonical video reference — the resolved URL handed
//! to the converter (with a legacy numeric identifier rewritten through the
//! codec) and the original identifier token that names the artifact file.

use vstd::prelude::*;
use crate::codec;
use crate::codec::{CodecError, MAX_AID, bv_chars_of};
use crate::urlmodel::{UrlParts, parsed_url_of, parse_url, str_eq, opt_view, seg_views, segs_string, url_string_spec, build_url_string};

verus! {

/// Whether the identifier was written in the legacy numeric form and went
/// through the codec, or was already canonical.
#[derive(Clone, Copy, Debug, PartialEq, Eq, Structural)]
pub enum IdKind {
    LegacyNumeric,
    Canonical,
}

/// A supported video, fully resolved.  `source_url` is the URL string handed
/// to the external converter; `token` is the original last path segment,
/// which names the artifact file; `video_id` is the last segment of
/// `source_url` (the canonical identifier when one was recognized).
pub struct CanonicalVideoRef {
    pub video_id: String,
    pub kind: IdKind,
    pub source_url: String,
    pub token: String,
}

pub struct RefView {
    pub video_id: Seq<char>,
    pub kind: IdKind,
    pub source_url: Seq<char>,
    pub token: Seq<char>,
}

impl View for CanonicalVideoRef {
    type V = RefView;

    open spec fn view(&self) -> RefView {
        RefView {
            video_id: self.video_id@,
            kind: self.kind,
            source_url: self.source_url@,
            token: self.token@,
        }
    }
}

/// What one media-loaded event asks of the pipeline.
pub enum PipelineDecision {
    Skip,
    Resolve(CanonicalVideoRef),
}

pub enum DecisionView {
    Skip,
    Resolve(RefView),
}

impl View for PipelineDecision {
    type V = DecisionView;

    open spec fn view(&self) -> DecisionView {
        match self {
            PipelineDecision::Skip => DecisionView::Skip,
            PipelineDecision::Resolve(r) => DecisionView::Resolve(r@),
        }
    }
}

pub open spec fn result_view(r: Result<PipelineDecision, CodecError>) -> Result<
    DecisionView,
    CodecError,
> {
    match r {
        Ok(d) => Ok(d@),
        Err(e) => Err(e),
    }
}

pub open spec fn spec_is_digit(c: char) -> bool {
    '0' <= c && c <= '9'
}

pub open spec fn spec_is_alnum(c: char) -> bool {
    ('0' <= c && c <= '9') || ('a' <= c && c <= 'z') || ('A' <= c && c <= 'Z')
}

/// The legacy identifier grammar: `av` followed by at least one digit.
pub open spec fn is_av_id(s: Seq<char>) -> bool {
    &&& s.len() >= 3
    &&& s[0] == 'a'
    &&& s[1] == 'v'
    &&& forall|i: int| 2 <= i < s.len() ==> spec_is_digit(s[i])
}

/// The canonical identifier grammar: a case-insensitive `bv` prefix followed
/// by exactly ten alphanumeric characters.
pub open spec fn is_bv_id(s: Seq<char>) -> bool {
    &&& s.len() == 12
    &&& s[0] == 'b' || s[0] == 'B'
    &&& s[1] == 'v' || s[1] == 'V'
    &&& forall|i: int| 2 <= i < s.len() ==> spec_is_alnum(s[i])
}

/// Whether a token starts with the literal legacy prefix (the only form the
/// codec rewrite applies to).
pub open spec fn av_prefixed(s: Seq<char>) -> bool {
    s.len() >= 2 && s[0] == 'a' && s[1] == 'v'
}

pub open spec fn all_digits(s: Seq<char>) -> bool {
    forall|i: int| 0 <= i < s.len() ==> spec_is_digit(s[i])
}

/// The value of a decimal numeral, most significant digit first.
pub open spec fn digits_val(s: Seq<char>) -> int
    decreases s.len(),
{
    if s.len() == 0 {
        0
    } else {
        digits_val(s.drop_last()) * 10 + (s.last() as int - '0' as int)
    }
}

pub open spec fn av_payload(s: Seq<char>) -> Seq<char> {
    s.subrange(2, s.len() as int)
}

/// The numeric identifier carried by an `av`-prefixed token: present exactly
/// when the whole tail is digits and the value fits in a `u64`.
pub open spec fn av_number_of(s: Seq<char>) -> Option<u64> {
    if s.len() >= 3 && s[0] == 'a' && s[1] == 'v' && all_digits(av_payload(s)) && digits_val(
        av_payload(s),
    ) <= u64::MAX as int {
        Some(digits_val(av_payload(s)) as u64)
    } else {
        None
    }
}

proof fn lemma_digits_val_nonneg(s: Seq<char>)
    requires
        all_digits(s),
    ensures
        digits_val(s) >= 0,
    decreases s.len(),
{
    if s.len() > 0 {
        assert(all_digits(s.drop_last()));
        lemma_digits_val_nonneg(s.drop_last());
        assert(spec_is_digit(s.last()));
    }
}

/// A decimal numeral is at least the value of any of its prefixes.
proof fn lemma_digits_val_mono(s: Seq<char>, k: int)
    requires
        all_digits(s),
        0 <= k <= s.len(),
    ensures
        digits_val(s.subrange(0, k)) <= digits_val(s),
    decreases s.len() - k,
{
    if k == s.len() {
        assert(s.subrange(0, k) =~= s);
    } else {
        assert(s.subrange(0, k + 1).drop_last() =~= s.subrange(0, k));
        assert(s.subrange(0, k + 1).last() == s[k]);
        assert(all_digits(s.subrange(0, k)));
        lemma_digits_val_nonneg(s.subrange(0, k));
        assert(spec_is_digit(s[k]));
        assert(digits_val(s.subrange(0, k + 1)) >= digits_val(s.subrange(0, k)));
        lemma_digits_val_mono(s, k + 1);
    }
}

/// Checks a token against the supported identifier grammar.
pub fn is_av_or_bv(video_id: &str) -> (r: bool)
    ensures
        r == (is_av_id(video_id@) || is_bv_id(video_id@)),
{
    let len = video_id.unicode_len();
    if len < 3 {
        return false;
    }
    let c0 = video_id.get_char(0);
    let c1 = video_id.get_char(1);
    if c0 == 'a' && c1 == 'v' {
        let mut i: usize = 2;
        while i < len
            invariant
                2 <= i <= len,
                len == video_id@.len(),
                3 <= len,
                video_id@[0] == 'a',
                video_id@[1] == 'v',
                forall|j: int| 2 <= j < i ==> spec_is_digit(video_id@[j]),
            decreases len - i,
        {
            let c = video_id.get_char(i);
            if !('0' <= c && c <= '9') {
                proof {
                    assert(!is_av_id(video_id@)) by {
                        assert(!spec_is_digit(video_id@[i as int]));
                    }
                }
                return false;
            }
            i += 1;
        }
        true
    } else if (c0 == 'b' || c0 == 'B') && (c1 == 'v' || c1 == 'V') {
        if len != 12 {
            return false;
        }
        let mut i: usize = 2;
        while i < 12
            invariant
                2 <= i <= 12,
                len == video_id@.len(),
                len == 12,
                video_id@[0] == 'b' || video_id@[0] == 'B',
                video_id@[1] == 'v' || video_id@[1] == 'V',
                forall|j: int| 2 <= j < i ==> spec_is_alnum(video_id@[j]),
            decreases 12 - i,
        {
            let c = video_id.get_char(i);
            if !(('0' <= c && c <= '9') || ('a' <= c && c <= 'z') || ('A' <= c && c <= 'Z')) {
                proof {
                    assert(!is_bv_id(video_id@)) by {
                        assert(!spec_is_alnum(video_id@[i as int]));
                    }
                }
                return false;
            }
            i += 1;
        }
        true
    } else {
        false
    }
}

/// Parses the numeric identifier out of an `av`-prefixed token.
fn av_number(token: &str) -> (r: Option<u64>)
    ensures
        r == av_number_of(token@),
{
    let len = token.unicode_len();
    if len < 3 {
        return None;
    }
    if !(token.get_char(0) == 'a' && token.get_char(1) == 'v') {
        return None;
    }
    let mut acc: u64 = 0;
    let mut i: usize = 2;
    while i < len
        invariant
            2 <= i <= len,
            len == token@.len(),
            3 <= len,
            token@[0] == 'a',
            token@[1] == 'v',
            all_digits(token@.subrange(2, i as int)),
            acc as int == digits_val(token@.subrange(2, i as int)),
        decreases len - i,
    {
        let c = token.get_char(i);
        if !('0' <= c && c <= '9') {
            proof {
                assert(av_payload(token@)[i - 2] == token@[i as int]);
                assert(!all_digits(av_payload(token@)));
            }
            return None;
        }
        let d: u64 = (c as u32 - 48) as u64;
        let ghost prev = token@.subrange(2, i as int);
        let ghost cur = token@.subrange(2, i as int + 1);
        proof {
            assert(cur.drop_last() =~= prev);
            assert(cur.last() == token@[i as int]);
            assert(digits_val(cur) == acc as int * 10 + d as int);
        }
        if acc > 1844674407370955161u64 || (acc == 1844674407370955161u64 && d > 5) {
            proof {
                let payload = av_payload(token@);
                assert(digits_val(cur) > u64::MAX as int);
                if all_digits(payload) {
                    assert(cur =~= payload.subrange(0, i as int - 1));
                    lemma_digits_val_mono(payload, i as int - 1);
                }
            }
            return None;
        }
        acc = acc * 10 + d;
        i += 1;
    }
    proof {
        assert(token@.subrange(2, len as int) =~= av_payload(token@));
    }
    Some(acc)
}


/// The first `bvid` query parameter, if any.
pub open spec fn first_bvid(pairs: Seq<(String, String)>) -> Option<String>
    decreases pairs.len(),
{
    if pairs.len() == 0 {
        None
    } else if pairs[0].0@ == "bvid"@ {
        Some(pairs[0].1)
    } else {
        first_bvid(pairs.drop_first())
    }
}

/// The target site: the `www` form, or the bare domain which is normalized
/// to it.
pub open spec fn host_target(h: Seq<char>) -> bool {
    h == "bilibili.com"@ || h == "www.bilibili.com"@
}

/// The tail of classification once the path segments are routed: reads the
/// identifier token from the last segment, rewrites a legacy numeric token
/// through the codec, and rebuilds the resolved URL on the normalized host.
pub open spec fn finish_spec(
    scheme: Seq<char>,
    port: Option<u16>,
    query: Option<Seq<char>>,
    fragment: Option<Seq<char>>,
    segs: Seq<Seq<char>>,
) -> Result<DecisionView, CodecError>
    recommends
        segs.len() > 0,
{
    let token = segs.last();
    if !av_prefixed(token) {
        Ok(DecisionView::Resolve(RefView {
            video_id: token,
            kind: IdKind::Canonical,
            source_url: url_string_spec(scheme, "www.bilibili.com"@, port, segs, query, fragment),
            token: token,
        }))
    } else {
        match av_number_of(token) {
            None => Ok(DecisionView::Skip),
            Some(v) => if v >= MAX_AID {
                Err(CodecError::OutOfRange)
            } else {
                Ok(DecisionView::Resolve(RefView {
                    video_id: bv_chars_of(v),
                    kind: IdKind::LegacyNumeric,
                    source_url: url_string_spec(
                        scheme,
                        "www.bilibili.com"@,
                        port,
                        segs.update(segs.len() - 1, bv_chars_of(v)),
                        query,
                        fragment,
                    ),
                    token: token,
                }))
            },
        }
    }
}

/// Path routing: an explicit `video` marker with a grammatical identifier, a
/// bare identifier (the `video` marker is prepended), a festival URL (a
/// fresh video URL is synthesized from the `bvid` query parameter), or a
/// series listing (taken as is); anything else is skipped.
pub open spec fn classify_routed(parts: UrlParts, segs: Seq<String>) -> Result<
    DecisionView,
    CodecError,
> {
    if segs.len() == 0 {
        Ok(DecisionView::Skip)
    } else if segs[0]@ == "video"@ && segs.len() >= 2 {
        if is_av_id(segs[1]@) || is_bv_id(segs[1]@) {
            finish_spec(
                parts.scheme@,
                parts.port,
                opt_view(parts.query),
                opt_view(parts.fragment),
                seg_views(segs),
            )
        } else {
            Ok(DecisionView::Skip)
        }
    } else if is_av_id(segs[0]@) || is_bv_id(segs[0]@) {
        finish_spec(
            parts.scheme@,
            parts.port,
            opt_view(parts.query),
            opt_view(parts.fragment),
            seq!["video"@] + seg_views(segs),
        )
    } else if segs[0]@ == "festival"@ {
        match first_bvid(parts.query_pairs@) {
            Some(v) => finish_spec("https"@, None, None, None, seq!["video"@, v@]),
            None => Ok(DecisionView::Skip),
        }
    } else if segs[0]@ == "bangumi"@ {
        finish_spec(
            parts.scheme@,
            parts.port,
            opt_view(parts.query),
            opt_view(parts.fragment),
            seg_views(segs),
        )
    } else {
        Ok(DecisionView::Skip)
    }
}

/// What classification decides on any parsed URL.
pub open spec fn classify_parts_spec(parts: UrlParts) -> Result<DecisionView, CodecError> {
    match parts.host {
        None => Ok(DecisionView::Skip),
        Some(h) => if !host_target(h@) {
            Ok(DecisionView::Skip)
        } else {
            match parts.segments {
                None => Ok(DecisionView::Skip),
                Some(segs) => classify_routed(parts, segs@),
            }
        },
    }
}

fn clone_segments(segs: &Vec<String>) -> (r: Vec<String>)
    ensures
        r@ == segs@,
{
    let mut r: Vec<String> = Vec::new();
    let mut i: usize = 0;
    while i < segs.len()
        invariant
            i <= segs@.len(),
            r@.len() == i,
            forall|j: int| 0 <= j < i ==> r@[j] == segs@[j],
        decreases segs@.len() - i,
    {
        r.push(segs[i].clone());
        i += 1;
    }
    proof {
        assert(r@ =~= segs@);
    }
    r
}

/// Finds the first `bvid` query parameter.
fn find_bvid(pairs: &Vec<(String, String)>) -> (r: Option<String>)
    ensures
        r == first_bvid(pairs@),
{
    let mut i: usize = 0;
    proof {
        assert(pairs@.skip(0) =~= pairs@);
    }
    while i < pairs.len()
        invariant
            i <= pairs@.len(),
            first_bvid(pairs@) == first_bvid(pairs@.skip(i as int)),
        decreases pairs@.len() - i,
    {
        proof {
            assert(pairs@.skip(i as int)[0] == pairs@[i as int]);
            assert(pairs@.skip(i as int).drop_first() =~= pairs@.skip(i as int + 1));
        }
        if str_eq(pairs[i].0.as_str(), "bvid") {
            return Some(pairs[i].1.clone());
        }
        i += 1;
    }
    None
}

/// The tail of classification on the routed segments; see `finish_spec`.
fn finish_resolve(
    scheme: &str,
    port: Option<u16>,
    query: &Option<String>,
    fragment: &Option<String>,
    segs: Vec<String>,
) -> (r: Result<PipelineDecision, CodecError>)
    requires
        segs@.len() > 0,
    ensures
        result_view(r) == finish_spec(
            scheme@,
            port,
            opt_view(*query),
            opt_view(*fragment),
            seg_views(segs@),
        ),
{
    let n = segs.len();
    let token: String = segs[n - 1].clone();
    let tlen = token.as_str().unicode_len();
    let av_pref = tlen >= 2 && token.as_str().get_char(0) == 'a' && token.as_str().get_char(1)
        == 'v';
    proof {
        assert(av_pref == av_prefixed(seg_views(segs@).last()));
    }
    if !av_pref {
        let url = build_url_string(scheme, "www.bilibili.com", port, &segs, query, fragment);
        Ok(PipelineDecision::Resolve(CanonicalVideoRef {
            video_id: token.clone(),
            kind: IdKind::Canonical,
            source_url: url,
            token,
        }))
    } else {
        match av_number(token.as_str()) {
            None => Ok(PipelineDecision::Skip),
            Some(v) => match codec::encode(v) {
                Err(e) => Err(e),
                Ok(bv) => {
                    let mut segs2 = segs;
                    segs2.pop();
                    segs2.push(bv.clone());
                    proof {
                        assert(seg_views(segs2@) =~= seg_views(segs@).update(
                            segs@.len() - 1,
                            bv_chars_of(v),
                        ));
                    }
                    let url = build_url_string(
                        scheme,
                        "www.bilibili.com",
                        port,
                        &segs2,
                        query,
                        fragment,
                    );
                    Ok(PipelineDecision::Resolve(CanonicalVideoRef {
                        video_id: bv,
                        kind: IdKind::LegacyNumeric,
                        source_url: url,
                        token,
                    }))
                },
            },
        }
    }
}

/// Classifies a parsed URL; see `classify_parts_spec`.
pub fn classify_parts(parts: &UrlParts) -> (r: Result<PipelineDecision, CodecError>)
    ensures
        result_view(r) == classify_parts_spec(*parts),
{
    let host = match &parts.host {
        None => {
            return Ok(PipelineDecision::Skip);
        },
        Some(h) => h,
    };
    if !(str_eq(host.as_str(), "bilibili.com") || str_eq(host.as_str(), "www.bilibili.com")) {
        return Ok(PipelineDecision::Skip);
    }
    let segs = match &parts.segments {
        None => {
            return Ok(PipelineDecision::Skip);
        },
        Some(s) => s,
    };
    if segs.len() == 0 {
        return Ok(PipelineDecision::Skip);
    }
    if str_eq(segs[0].as_str(), "video") && segs.len() >= 2 {
        if is_av_or_bv(segs[1].as_str()) {
            let owned = clone_segments(segs);
            finish_resolve(parts.scheme.as_str(), parts.port, &parts.query, &parts.fragment, owned)
        } else {
            Ok(PipelineDecision::Skip)
        }
    } else if is_av_or_bv(segs[0].as_str()) {
        let mut owned: Vec<String> = Vec::new();
        owned.push(String::from_str("video"));
        let mut i: usize = 0;
        while i < segs.len()
            invariant
                i <= segs@.len(),
                owned@.len() == 1 + i,
                owned@[0]@ == "video"@,
                forall|j: int| 0 <= j < i ==> owned@[j + 1] == segs@[j],
            decreases segs@.len() - i,
        {
            owned.push(segs[i].clone());
            i += 1;
        }
        proof {
            assert(seg_views(owned@) =~= seq!["video"@] + seg_views(segs@));
        }
        finish_resolve(parts.scheme.as_str(), parts.port, &parts.query, &parts.fragment, owned)
    } else if str_eq(segs[0].as_str(), "festival") {
        match find_bvid(&parts.query_pairs) {
            Some(v) => {
                let mut owned: Vec<String> = Vec::new();
                owned.push(String::from_str("video"));
                let ghost vv = v@;
                owned.push(v);
                let no_query: Option<String> = None;
                let no_fragment: Option<String> = None;
                proof {
                    assert(seg_views(owned@) =~= seq!["video"@, vv]);
                }
                finish_resolve("https", None, &no_query, &no_fragment, owned)
            },
            None => Ok(PipelineDecision::Skip),
        }
    } else if str_eq(segs[0].as_str(), "bangumi") {
        let owned = clone_segments(segs);
        finish_resolve(parts.scheme.as_str(), parts.port, &parts.query, &parts.fragment, owned)
    } else {
        Ok(PipelineDecision::Skip)
    }
}

/// One trailing path separator is tolerated before parsing.
pub open spec fn trim_one_slash(s: Seq<char>) -> Seq<char> {
    if s.len() > 0 && s[s.len() - 1] == '/' {
        s.drop_last()
    } else {
        s
    }
}

/// What `classify` decides on any raw URL string.
pub open spec fn classify_spec(s: Seq<char>) -> Result<DecisionView, CodecError> {
    match parsed_url_of(trim_one_slash(s)) {
        None => Ok(DecisionView::Skip),
        Some(parts) => classify_parts_spec(parts),
    }
}

/// Classifies a raw URL string: trims one trailing path separator, parses,
/// and decides.  Returns `Skip` for anything that is not a supported video
/// URL; fails only when a legacy numeric identifier is out of the codec
/// domain.
pub fn classify(raw_url: &str) -> (r: Result<PipelineDecision, CodecError>)
    ensures
        result_view(r) == classify_spec(raw_url@),
{
    let len = raw_url.unicode_len();
    let trimmed: &str = if len > 0 && raw_url.get_char(len - 1) == '/' {
        let t = raw_url.substring_char(0, len - 1);
        proof {
            assert(t@ =~= trim_one_slash(raw_url@));
        }
        t
    } else {
        raw_url
    };
    match parse_url(trimmed) {
        None => Ok(PipelineDecision::Skip),
        Some(parts) => classify_parts(&parts),
    }
}

/// Classifying an already-canonical video URL resolves to that identifier
/// unchanged, with no codec step.
pub proof fn lemma_canonical_idempotent(parts: UrlParts, segs: Seq<String>)
    requires
        parts.host matches Some(h) && host_target(h@),
        parts.segments matches Some(sv) && sv@ == segs,
        segs.len() >= 2,
        segs[0]@ == "video"@,
        is_av_id(segs[1]@) || is_bv_id(segs[1]@),
        is_bv_id(seg_views(segs).last()),
    ensures
        classify_parts_spec(parts) matches Ok(d) && d matches DecisionView::Resolve(rv)
            && rv.video_id == seg_views(segs).last()
            && rv.token == seg_views(segs).last()
            && rv.kind == IdKind::Canonical,
{
    assert(!av_prefixed(seg_views(segs).last()));
}

/// A URL whose host is not the target site (nor its bare-domain form) is
/// always skipped.
pub proof fn lemma_unrelated_host_skipped(parts: UrlParts)
    requires
        match parts.host {
            None => true,
            Some(h) => !host_target(h@),
        },
    ensures
        classify_parts_spec(parts) == Ok::<DecisionView, CodecError>(DecisionView::Skip),
{
}

/// A festival URL carrying a `bvid` query parameter resolves to a
/// synthesized video URL that ends in exactly that identifier.
pub proof fn lemma_festival_resolves(parts: UrlParts, segs: Seq<String>, v: String)
    requires
        parts.host matches Some(h) && host_target(h@),
        parts.segments matches Some(sv) && sv@ == segs,
        segs.len() > 0,
        segs[0]@ == "festival"@,
        first_bvid(parts.query_pairs@) == Some(v),
        !av_prefixed(v@),
    ensures
        classify_parts_spec(parts) matches Ok(d) && d matches DecisionView::Resolve(rv)
            && rv.video_id == v@
            && rv.token == v@
            && rv.source_url == "https://www.bilibili.com/video/"@ + v@,
{
    reveal_strlit("video");
    reveal_strlit("festival");
    reveal_strlit("bangumi");
    reveal_strlit("https");
    reveal_strlit("www.bilibili.com");
    reveal_strlit("https://www.bilibili.com/video/");
    assert("festival"@.len() == 8);
    assert("video"@.len() == 5);
    assert(segs[0]@ != "video"@);
    assert(!is_av_id(segs[0]@));
    assert(!is_bv_id(segs[0]@));
    let synth = seq!["video"@, v@];
    assert(synth.last() == v@);
    assert(classify_parts_spec(parts) == finish_spec("https"@, None, None, None, synth));
    let built = url_string_spec("https"@, "www.bilibili.com"@, None, synth, None, None);
    assert(seq!["video"@].drop_last() =~= Seq::<Seq<char>>::empty());
    assert(synth.drop_last() =~= seq!["video"@]);
    assert(segs_string(Seq::<Seq<char>>::empty()) == Seq::<char>::empty());
    assert(seq!["video"@].last() == "video"@);
    assert(segs_string(seq!["video"@]) =~= seq!['/'] + "video"@);
    assert(segs_string(synth) =~= seq!['/'] + "video"@ + seq!['/'] + v@);
    let head = "https"@ + seq![':', '/', '/'] + "www.bilibili.com"@ + seq!['/'] + "video"@
        + seq!['/'];
    assert("https://www.bilibili.com/video/"@ =~= head);
    assert(built =~= head + v@);
    assert(built == "https://www.bilibili.com/video/"@ + v@);
}

/// Classifying a URL with one trailing path separator yields the same
/// decision as classifying it without.
pub proof fn lemma_trailing_slash_tolerated(s: Seq<char>)
    requires
        s.len() == 0 || s[s.len() - 1] != '/',
    ensures
        classify_spec(s.push('/')) == classify_spec(s),
{
    assert(trim_one_slash(s.push('/')) =~= s);
    assert(trim_one_slash(s) == s);
}

/// The value of a plain decimal numeral token: present exactly when the
/// token is non-empty, all digits, and fits in a `u64`.
pub open spec fn dec_number_of(s: Seq<char>) -> Option<u64> {
    if s.len() >= 1 && all_digits(s) && digits_val(s) <= u64::MAX as int {
        Some(digits_val(s) as u64)
    } else {
        None
    }
}

/// Parses a plain decimal numeral.
pub fn parse_decimal(token: &str) -> (r: Option<u64>)
    ensures
        r == dec_number_of(token@),
{
    let len = token.unicode_len();
    if len == 0 {
        return None;
    }
    let mut acc: u64 = 0;
    let mut i: usize = 0;
    while i < len
        invariant
            i <= len,
            len == token@.len(),
            1 <= len,
            all_digits(token@.subrange(0, i as int)),
            acc as int == digits_val(token@.subrange(0, i as int)),
        decreases len - i,
    {
        let c = token.get_char(i);
        if !('0' <= c && c <= '9') {
            proof {
                assert(!all_digits(token@)) by {
                    assert(!spec_is_digit(token@[i as int]));
                }
            }
            return None;
        }
        let d: u64 = (c as u32 - 48) as u64;
        let ghost cur = token@.subrange(0, i as int + 1);
        proof {
            assert(cur.drop_last() =~= token@.subrange(0, i as int));
            assert(cur.last() == token@[i as int]);
            assert(digits_val(cur) == acc as int * 10 + d as int);
        }
        if acc > 1844674407370955161u64 || (acc == 1844674407370955161u64 && d > 5) {
            proof {
                assert(digits_val(cur) > u64::MAX as int);
                if all_digits(token@) {
                    lemma_digits_val_mono(token@, i as int + 1);
                }
            }
            return None;
        }
        acc = acc * 10 + d;
        i += 1;
    }
    proof {
        assert(token@.subrange(0, len as int) =~= token@);
    }
    Some(acc)
}

/// An encoded identifier always satisfies the canonical identifier grammar:
/// the codec's output can itself be classified, with no further rewrite.
pub proof fn lemma_encoded_id_is_canonical(n: u64)
    ensures
        is_bv_id(bv_chars_of(n)),
{
    let s = bv_chars_of(n);
    assert(s.len() == 12);
    assert(s[0] == 'B');
    assert(s[1] == 'V');
    assert(spec_is_alnum(s[2]));
    assert forall|i: int| 2 <= i < 12 implies spec_is_alnum(s[i]) by {
        if i >= 3 {
            let d = codec::digit_at(codec::mixed(n) as int, codec::bv_digit_index(i) as nat);
            assert(0 <= d < 58);
            assert(spec_is_alnum(codec::char_of_digit(d)));
        }
    }
}

} // verus!
