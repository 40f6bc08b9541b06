//! The request parameters of the web worker and the addresses it fetches.

use vstd::prelude::*;

use crate::codec::{base64_decode, base64_decoded, utf8_error_text, utf8_string};
use crate::model::Error;
use vstd::utf8::valid_utf8;

verus! {

/// The views of query pairs.
pub open spec fn pair_views(pairs: Seq<(String, String)>) -> Seq<(Seq<char>, Seq<char>)> {
    pairs.map_values(|p: (String, String)| (p.0@, p.1@))
}

/// The value of the first pair whose name is `key`.
pub open spec fn first_value(pairs: Seq<(Seq<char>, Seq<char>)>, key: Seq<char>) -> Option<Seq<char>>
    decreases pairs.len(),
{
    if pairs.len() == 0 {
        None
    } else if pairs[0].0 == key {
        Some(pairs[0].1)
    } else {
        first_value(pairs.drop_first(), key)
    }
}

/// The value of the first query pair named `key`, as `find_map` over the
/// pairs of a URL finds it.
pub fn query_value(pairs: &Vec<(String, String)>, key: &str) -> (r: Option<String>)
    ensures
        match r {
            Some(v) => first_value(pair_views(pairs@), key@) == Some(v@),
            None => first_value(pair_views(pairs@), key@) is None,
        },
{
    let ghost pv = pair_views(pairs@);
    let wanted = String::from_str(key);
    let mut i: usize = 0;
    assert(pv.skip(0) =~= pv);
    while i < pairs.len()
        invariant
            pv == pair_views(pairs@),
            wanted@ == key@,
            i <= pairs.len(),
            first_value(pv, key@) == first_value(pv.skip(i as int), key@),
        decreases pairs.len() - i,
    {
        assert(pv.skip(i as int)[0] == pv[i as int]);
        assert(pv.skip(i as int).drop_first() =~= pv.skip(i + 1));
        if pairs[i].0 == wanted {
            return Some(pairs[i].1.clone());
        }
        i = i + 1;
    }
    None
}

/// The parameters `userid`, `authtoken` and `preset_what` of a request, from
/// its query pairs: the first pair of each name counts; `preset_what` is
/// `all` where it is missing.
pub fn get_params(pairs: &Vec<(String, String)>) -> (r: Result<(String, String, String), Error>)
    ensures
        match r {
            Ok((user_id, auth_token, preset_what)) => {
                &&& first_value(pair_views(pairs@), "userid"@) == Some(user_id@)
                &&& first_value(pair_views(pairs@), "authtoken"@) == Some(auth_token@)
                &&& preset_what@ == match first_value(pair_views(pairs@), "preset_what"@) {
                    Some(v) => v,
                    None => "all"@,
                }
            },
            Err(Error::RustError(m)) => {
                ||| first_value(pair_views(pairs@), "userid"@) is None && m@ == "userid missing"@
                ||| first_value(pair_views(pairs@), "userid"@) is Some
                    && first_value(pair_views(pairs@), "authtoken"@) is None
                    && m@ == "authtoken missing"@
            },
        },
{
    let user_id = match query_value(pairs, "userid") {
        Some(v) => v,
        None => return Err(Error::RustError(String::from_str("userid missing"))),
    };
    let auth_token = match query_value(pairs, "authtoken") {
        Some(v) => v,
        None => return Err(Error::RustError(String::from_str("authtoken missing"))),
    };
    let preset_what = match query_value(pairs, "preset_what") {
        Some(v) => v,
        None => String::from_str("all"),
    };
    Ok((user_id, auth_token, preset_what))
}

/// The calendar export address of the FRI Moodle for a user.
pub open spec fn fri_export_url_of(
    user_id: Seq<char>,
    auth_token: Seq<char>,
    preset_what: Seq<char>,
    preset_time: Seq<char>,
) -> Seq<char> {
    "https://ucilnica.fri.uni-lj.si/calendar/export_execute.php?userid="@ + user_id
        + "&authtoken="@ + auth_token + "&preset_what="@ + preset_what + "&preset_time="@
        + preset_time
}

/// The calendar export address of the FRI Moodle for a user, a selection of
/// events (`preset_what`) and a time range (`preset_time`, such as `custom`
/// or `monthnow`).
pub fn fri_export_url(user_id: &str, auth_token: &str, preset_what: &str, preset_time: &str) -> (r: String)
    ensures
        r@ == fri_export_url_of(user_id@, auth_token@, preset_what@, preset_time@),
{
    let mut r = String::from_str("https://ucilnica.fri.uni-lj.si/calendar/export_execute.php?userid=");
    r.append(user_id);
    r.append("&authtoken=");
    r.append(auth_token);
    r.append("&preset_what=");
    r.append(preset_what);
    r.append("&preset_time=");
    r.append(preset_time);
    r
}

/// What decoding a route parameter gives: the base64 decoding of the text,
/// read as UTF-8.
pub open spec fn decoded_param(encoded: Seq<char>) -> Result<Seq<char>, Seq<char>> {
    match base64_decoded(encoded) {
        Err(m) => Err(m),
        Ok(bytes) => if valid_utf8(bytes) {
            Ok(vstd::utf8::decode_utf8(bytes))
        } else {
            Err(utf8_error_text(bytes))
        },
    }
}

/// Decodes a route parameter that carries an address in base64.
pub fn decode_param(encoded: &str) -> (r: Result<String, Error>)
    ensures
        match r {
            Ok(s) => decoded_param(encoded@) == Ok::<Seq<char>, Seq<char>>(s@),
            Err(Error::RustError(m)) => decoded_param(encoded@) == Err::<Seq<char>, Seq<char>>(m@),
        },
{
    let bytes = match base64_decode(encoded) {
        Ok(b) => b,
        Err(m) => return Err(Error::RustError(m)),
    };
    match utf8_string(bytes.as_slice()) {
        Ok(s) => {
            proof { vstd::utf8::encode_utf8_decode_utf8(s@); }
            Ok(s)
        },
        Err(m) => Err(Error::RustError(m)),
    }
}

/// The export address starts with the export page of the FRI Moodle and the
/// user, token and selection in that order, and ends with `&preset_time=`
/// followed by the time range exactly as given, so that addresses for
/// different time ranges differ.
pub proof fn law_export_url_ends_with_time_range(
    user_id: Seq<char>,
    auth_token: Seq<char>,
    preset_what: Seq<char>,
    preset_time: Seq<char>,
)
    ensures
        ({
            let url = fri_export_url_of(user_id, auth_token, preset_what, preset_time);
            let head = "https://ucilnica.fri.uni-lj.si/calendar/export_execute.php?userid="@ + user_id
                + "&authtoken="@ + auth_token + "&preset_what="@ + preset_what;
            let tail = "&preset_time="@ + preset_time;
            &&& url.len() == head.len() + tail.len()
            &&& url.subrange(0, head.len() as int) == head
            &&& url.subrange(head.len() as int, url.len() as int) == tail
        }),
{
    let url = fri_export_url_of(user_id, auth_token, preset_what, preset_time);
    let head = "https://ucilnica.fri.uni-lj.si/calendar/export_execute.php?userid="@ + user_id
        + "&authtoken="@ + auth_token + "&preset_what="@ + preset_what;
    let tail = "&preset_time="@ + preset_time;
    assert(url =~= head + tail);
    assert(url.subrange(0, head.len() as int) =~= head);
    assert(url.subrange(head.len() as int, url.len() as int) =~= tail);
}

/// Export addresses that differ only in the time range, or only in the
/// selection, are different addresses.
pub proof fn law_export_urls_differ(
    user_id: Seq<char>,
    auth_token: Seq<char>,
    what1: Seq<char>,
    time1: Seq<char>,
    what2: Seq<char>,
    time2: Seq<char>,
)
    requires
        (what1 == what2 && time1 != time2) || (time1 == time2 && what1 != what2),
    ensures
        fri_export_url_of(user_id, auth_token, what1, time1) != fri_export_url_of(
            user_id,
            auth_token,
            what2,
            time2,
        ),
{
    let u1 = fri_export_url_of(user_id, auth_token, what1, time1);
    let u2 = fri_export_url_of(user_id, auth_token, what2, time2);
    let pre = "https://ucilnica.fri.uni-lj.si/calendar/export_execute.php?userid="@ + user_id
        + "&authtoken="@ + auth_token + "&preset_what="@;
    let mid = "&preset_time="@;
    if u1 == u2 {
        law_export_url_ends_with_time_range(user_id, auth_token, what1, time1);
        law_export_url_ends_with_time_range(user_id, auth_token, what2, time2);
        assert(u1 =~= pre + what1 + mid + time1);
        assert(u2 =~= pre + what2 + mid + time2);
        let r1 = what1 + mid + time1;
        let r2 = what2 + mid + time2;
        assert(u1.skip(pre.len() as int) =~= r1);
        assert(u2.skip(pre.len() as int) =~= r2);
        assert(r1 == r2);
        if time1 == time2 {
            assert(what1.len() == what2.len());
            assert(what1 =~= r1.take(what1.len() as int));
            assert(what2 =~= r2.take(what2.len() as int));
        } else {
            assert(time1 =~= r1.skip((what1.len() + mid.len()) as int));
            assert(time2 =~= r2.skip((what2.len() + mid.len()) as int));
        }
    }
}

} // verus!
