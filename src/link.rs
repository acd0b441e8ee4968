//! The deep link that directs a starting instance to an in-app destination.
use vstd::prelude::*;
use crate::text::{chars_contain, chars_of, contains};

verus! {

/// What a launch opens: the target bot or app and an optional referral.
#[derive(Clone, Debug, Default)]
pub struct TelegramLink {
    pub api_id: String,
    pub api_hash: String,
    pub phone: String,
    pub app_name: String,
    pub app_type: String,
    pub ref_link: String,
    pub mixed: String,
}

/// The query pairs, percent-decoded and in order, of a text that `url`
/// parses as an absolute URL, or `None` when it does not parse.
pub uninterp spec fn url_query_pairs_of(s: Seq<char>) -> Option<Seq<(Seq<char>, Seq<char>)>>;

pub open spec fn pair_views(v: Seq<(String, String)>) -> Seq<(Seq<char>, Seq<char>)> {
    v.map_values(|kv: (String, String)| (kv.0@, kv.1@))
}

/// Relies on `url::Url::parse` and `Url::query_pairs`: the decoded query
/// pairs of the URL, or `None` when the text is no valid URL.
#[verifier::external_body]
fn url_query_pairs(s: &str) -> (r: Option<Vec<(String, String)>>)
    ensures
        match r {
            Some(v) => url_query_pairs_of(s@) == Some(pair_views(v@)),
            None => url_query_pairs_of(s@) is None,
        },
{
    match url::Url::parse(s) {
        Ok(u) => Some(u.query_pairs().map(|(k, v)| (k.into_owned(), v.into_owned())).collect()),
        Err(_) => None,
    }
}

/// The value of the first pair whose key is `key`.
pub open spec fn first_value(pairs: Seq<(Seq<char>, Seq<char>)>, key: Seq<char>) -> Option<Seq<char>>
    decreases pairs.len(),
{
    if pairs.len() == 0 {
        None
    } else if pairs[0].0 == key {
        Some(pairs[0].1)
    } else {
        first_value(pairs.drop_first(), key)
    }
}

/// The `startapp` value carried by a referral: taken from the query of a full
/// URL that holds `startapp=`, else the referral itself.
pub open spec fn startapp_value(ref_link: Seq<char>) -> Seq<char> {
    if ref_link.len() > 0 && contains(ref_link, "startapp="@) {
        match url_query_pairs_of(ref_link) {
            Some(pairs) => match first_value(pairs, "startapp"@) {
                Some(v) => v,
                None => ref_link,
            },
            None => ref_link,
        }
    } else {
        ref_link
    }
}

/// The deep link for the given target.
pub open spec fn telegram_link(app_name: Seq<char>, app_type: Seq<char>, ref_link: Seq<char>) -> Seq<char> {
    let base = "tg://resolve?domain="@ + app_name;
    if app_type.len() > 0 {
        let v = startapp_value(ref_link);
        base + "&appname="@ + app_type + if v.len() > 0 {
            "&startapp="@ + v
        } else {
            "&startapp"@
        }
    } else if ref_link.len() > 0 {
        base + "&start="@ + ref_link
    } else {
        base + "&start"@
    }
}

fn first_value_exec(pairs: &Vec<(String, String)>, key: &str) -> (r: Option<String>)
    ensures
        match r {
            Some(v) => first_value(pair_views(pairs@), key@) == Some(v@),
            None => first_value(pair_views(pairs@), key@) is None,
        },
{
    let ghost all = pair_views(pairs@);
    let key_chars = chars_of(key);
    assert(all.subrange(0, all.len() as int) =~= all);
    let mut i: usize = 0;
    while i < pairs.len()
        invariant
            i <= pairs@.len(),
            all == pair_views(pairs@),
            key_chars@ == key@,
            first_value(all, key@) == first_value(all.subrange(i as int, all.len() as int), key@),
        decreases pairs@.len() - i,
    {
        let ghost tail = all.subrange(i as int, all.len() as int);
        assert(tail[0] == all[i as int]);
        let k = chars_of(pairs[i].0.as_str());
        if k.len() == key_chars.len() && crate::text::chars_start_with(&k, &key_chars) {
            assert(k@ =~= key@) by {
                assert(k@.subrange(0, key@.len() as int) =~= k@);
            }
            return Some(pairs[i].1.clone());
        }
        proof {
            if k@ == key@ {
                assert(k@.subrange(0, key@.len() as int) =~= k@);
            }
            assert(tail.drop_first() =~= all.subrange(i + 1 as int, all.len() as int));
        }
        i = i + 1;
    }
    proof {
        assert(all.subrange(i as int, all.len() as int).len() == 0);
    }
    None
}

fn startapp_of(ref_link: &str) -> (r: String)
    ensures
        r@ == startapp_value(ref_link@),
{
    if !ref_link.is_empty() && chars_contain(&chars_of(ref_link), &chars_of("startapp=")) {
        match url_query_pairs(ref_link) {
            Some(pairs) => match first_value_exec(&pairs, "startapp") {
                Some(v) => v,
                None => String::from_str(ref_link),
            },
            None => String::from_str(ref_link),
        }
    } else {
        String::from_str(ref_link)
    }
}

/// Builds the deep link: `tg://resolve?domain=<app_name>`, then for an app
/// type `&appname=<type>&startapp[=<value>]`, else `&start[=<ref_link>]`.
pub fn build_telegram_link(link_params: &TelegramLink) -> (r: String)
    ensures
        r@ == telegram_link(link_params.app_name@, link_params.app_type@, link_params.ref_link@),
{
    let mut link = String::from_str("tg://resolve?domain=");
    link.append(link_params.app_name.as_str());
    if !link_params.app_type.as_str().is_empty() {
        link.append("&appname=");
        link.append(link_params.app_type.as_str());
        let v = startapp_of(link_params.ref_link.as_str());
        if !v.as_str().is_empty() {
            link.append("&startapp=");
            link.append(v.as_str());
        } else {
            link.append("&startapp");
        }
    } else if !link_params.ref_link.as_str().is_empty() {
        link.append("&start=");
        link.append(link_params.ref_link.as_str());
    } else {
        link.append("&start");
    }
    link
}

} // verus!
