//! Splitting chat text into plain text and link segments, so that links
//! render as hyperlinks. Finding the link spans is delegated to a regular
//! expression; the splitting around them is verified.

use vstd::prelude::*;

verus! {

/// The pattern that recognises links in chat text.
pub const URL_PATTERN: &'static str = r#"(?i)\b((?:https?://|www\d{0,3}[.]|[a-z0-9.\-]+[.][a-z]{2,4}/)(?:[^\s()<>]+|\(([^\s()<>]+|(\([^\s()<>]+\)))*\))+(?:\(([^\s()<>]+|(\([^\s()<>]+\)))*\)|[^\s`!()\[\]{};:'".,<>?«»“”‘’]))"#;

/// The character spans at which the pattern matches, leftmost first.
pub uninterp spec fn url_spans_of(text: Seq<char>) -> Seq<(usize, usize)>;

/// Relies on `regex::Regex::find_iter` with the link pattern: it yields
/// successive non-overlapping matches, leftmost first, each a non-empty
/// substring of the haystack; byte offsets are converted to character
/// offsets.
#[verifier::external_body]
fn url_spans(text: &str) -> (r: Vec<(usize, usize)>)
    ensures
        r@ == url_spans_of(text@),
        forall|k: int| 0 <= k < r@.len() ==> (#[trigger] r@[k]).0 < r@[k].1 <= text@.len(),
        forall|k: int| 0 < k < r@.len() ==> (#[trigger] r@[k]).0 >= r@[k - 1].1,
{
    let re = match regex::Regex::new(URL_PATTERN) {
        Ok(re) => re,
        Err(_) => return Vec::new(),
    };
    re.find_iter(text)
        .map(|m| (text[..m.start()].chars().count(), text[..m.end()].chars().count()))
        .collect()
}

/// One piece of rendered chat text: plain text, or a link.
#[derive(Clone, Debug, PartialEq)]
pub enum TextOrUrl {
    Text(String),
    Url(String),
}

#[verifier::ext_equal]
pub ghost enum SpecTextOrUrl {
    Text(Seq<char>),
    Url(Seq<char>),
}

impl DeepView for TextOrUrl {
    type V = SpecTextOrUrl;

    open spec fn deep_view(&self) -> SpecTextOrUrl {
        match self {
            TextOrUrl::Text(t) => SpecTextOrUrl::Text(t.deep_view()),
            TextOrUrl::Url(u) => SpecTextOrUrl::Url(u.deep_view()),
        }
    }
}

/// Whether the text begins with this prefix.
pub open spec fn has_prefix(s: Seq<char>, p: Seq<char>) -> bool {
    s.len() >= p.len() && s.subrange(0, p.len() as int) == p
}

/// A matched link as rendered: unchanged when it already names a scheme,
/// else with `http://` put in front.
pub open spec fn spec_prefixed_url(u: Seq<char>) -> Seq<char> {
    if has_prefix(u, "http://"@) || has_prefix(u, "https://"@) {
        u
    } else {
        "http://"@ + u
    }
}

/// The segments the text splits into around the given spans, starting
/// from `last_end`: the text between spans stays text, each span becomes
/// a link.
pub open spec fn spec_segments(
    text: Seq<char>,
    spans: Seq<(usize, usize)>,
    last_end: int,
) -> Seq<SpecTextOrUrl>
    decreases spans.len(),
{
    if spans.len() == 0 {
        if last_end < text.len() {
            seq![SpecTextOrUrl::Text(text.subrange(last_end, text.len() as int))]
        } else {
            Seq::empty()
        }
    } else {
        let s = spans[0].0 as int;
        let e = spans[0].1 as int;
        (if s > last_end {
            seq![SpecTextOrUrl::Text(text.subrange(last_end, s))]
        } else {
            Seq::empty()
        }) + seq![SpecTextOrUrl::Url(spec_prefixed_url(text.subrange(s, e)))] + spec_segments(
            text,
            spans.drop_first(),
            e,
        )
    }
}

/// Splits chat text into plain segments and links: text between pattern
/// matches stays text, each match becomes a link, given an `http://`
/// prefix when it names no scheme. The spans the result is split around
/// are non-empty, in bounds and ascending, so the segments partition the
/// text.
pub fn parse_text_for_urls(text: &str) -> (r: Vec<TextOrUrl>)
    ensures
        r.deep_view() == spec_segments(text@, url_spans_of(text@), 0),
        forall|k: int|
            0 <= k < url_spans_of(text@).len() ==> (#[trigger] url_spans_of(text@)[k]).0
                < url_spans_of(text@)[k].1 <= text@.len(),
        forall|k: int|
            0 < k < url_spans_of(text@).len() ==> (#[trigger] url_spans_of(text@)[k]).0
                >= url_spans_of(text@)[k - 1].1,
{
    let spans = url_spans(text);
    let ghost sv = spans.deep_view();
    let len = text.unicode_len();
    let mut result: Vec<TextOrUrl> = Vec::new();
    let mut last_end: usize = 0;
    let mut i: usize = 0;
    proof {
        assert(sv =~= url_spans_of(text@));
        assert(sv.skip(0) =~= sv);
        assert(result.deep_view() + spec_segments(text@, sv.skip(0), 0) =~= spec_segments(
            text@,
            sv,
            0,
        ));
    }
    while i < spans.len()
        invariant
            0 <= i <= spans.len(),
            sv == spans.deep_view(),
            sv == url_spans_of(text@),
            sv.len() == spans.len(),
            len == text@.len(),
            forall|k: int| 0 <= k < sv.len() ==> (#[trigger] sv[k]).0 < sv[k].1 <= text@.len(),
            forall|k: int| 0 < k < sv.len() ==> (#[trigger] sv[k]).0 >= sv[k - 1].1,
            i == 0 ==> last_end == 0,
            i > 0 ==> last_end == sv[i - 1].1,
            last_end <= len,
            result.deep_view() + spec_segments(text@, sv.skip(i as int), last_end as int)
                == spec_segments(text@, sv, 0),
        decreases spans.len() - i,
    {
        let (s, e) = spans[i];
        proof {
            assert(sv[i as int] == spans@[i as int]);
            assert(sv.skip(i as int)[0] == sv[i as int]);
            assert(sv.skip(i as int).drop_first() =~= sv.skip(i + 1));
        }
        let ghost res0 = result.deep_view();
        if s > last_end {
            result.push(TextOrUrl::Text(String::from_str(text.substring_char(last_end, s))));
            proof {
                assert(result.deep_view() =~= res0.push(
                    SpecTextOrUrl::Text(text@.subrange(last_end as int, s as int)),
                ));
            }
        }
        let ghost res1 = result.deep_view();
        let matched = text.substring_char(s, e);
        let url = if crate::strutil::str_has_prefix(matched, "http://") || crate::strutil::str_has_prefix(
            matched,
            "https://",
        ) {
            String::from_str(matched)
        } else {
            String::from_str("http://").concat(matched)
        };
        proof {
            assert(url@ == spec_prefixed_url(text@.subrange(s as int, e as int)));
        }
        result.push(TextOrUrl::Url(url));
        proof {
            assert(result.deep_view() =~= res1.push(
                SpecTextOrUrl::Url(spec_prefixed_url(text@.subrange(s as int, e as int))),
            ));
            assert(result.deep_view() =~= res0 + (if s > last_end {
                seq![SpecTextOrUrl::Text(text@.subrange(last_end as int, s as int))]
            } else {
                Seq::<SpecTextOrUrl>::empty()
            }) + seq![SpecTextOrUrl::Url(spec_prefixed_url(text@.subrange(s as int, e as int)))]);
            assert(result.deep_view() + spec_segments(text@, sv.skip(i + 1), e as int)
                =~= spec_segments(text@, sv, 0));
        }
        last_end = e;
        i = i + 1;
    }
    proof {
        assert(sv.skip(i as int) =~= Seq::<(usize, usize)>::empty());
    }
    if last_end < len {
        let ghost res0 = result.deep_view();
        result.push(
            TextOrUrl::Text(String::from_str(text.substring_char(last_end, len))),
        );
        proof {
            assert(result.deep_view() =~= res0.push(
                SpecTextOrUrl::Text(text@.subrange(last_end as int, text@.len() as int)),
            ));
            assert(result.deep_view() =~= spec_segments(text@, sv, 0));
        }
    } else {
        proof {
            assert(result.deep_view() + Seq::<SpecTextOrUrl>::empty() =~= result.deep_view());
            assert(result.deep_view() =~= spec_segments(text@, sv, 0));
        }
    }
    result
}

} // verus!
