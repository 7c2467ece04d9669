//! What holds of every response and every request, proved over the grammar
//! and the decoders.

use vstd::prelude::*;
use crate::api::{payload_of, reply_of, response_of, DecodeError, ErrorModel};
use crate::decimal::{decimal, lemma_decimal_round_trip, spec_parse_u32};
use crate::decode::{all_decode, decoded_items, field, field_of, member_of, FromJson};
use crate::team::{
    access_logs_params_of, AccessLogsResponse, AccessLogsResponseModel, IconInfo, InfoResponse,
    InfoResponseModel, LoginInfo, TeamInfo,
};
use crate::grammar::{
    after, has_word, is_control, members_at, parse, skip_space, text_at, value_at, MAX_DEPTH,
};
use crate::json::JsonValue;

verus! {

/// Whether `c` may stand in a JSON string as it is: any character but the
/// quote, the backslash and the control characters.
pub open spec fn is_plain(c: char) -> bool {
    c != '"' && c != '\\' && !is_control(c)
}

/// Whether every character of `s` may stand in a JSON string as it is.
pub open spec fn all_plain(s: Seq<char>) -> bool {
    forall|i: int| 0 <= i < s.len() ==> is_plain(#[trigger] s[i])
}

/// The body with which the server refuses a call, `message` saying why.
pub open spec fn refusal_body(message: Seq<char>) -> Seq<char> {
    "{\"ok\": false, \"err\": \""@ + message + "\"}"@
}

/// What the body of a refusal stands for.
pub open spec fn refusal_value(message: Seq<char>) -> JsonValue {
    JsonValue::Object(seq![("ok"@, JsonValue::Bool(false)), ("err"@, JsonValue::Str(message))])
}

/// Plain characters up to a quote are a string that stands for just these
/// characters.
pub proof fn lemma_plain_text(s: Seq<char>, i: int, n: int)
    requires
        0 <= i,
        0 <= n,
        i + n < s.len(),
        forall|k: int| i <= k < i + n ==> is_plain(#[trigger] s[k]),
        s[i + n] == '"',
    ensures
        text_at(s, i) == Some((s.subrange(i, i + n), i + n + 1)),
    decreases n,
{
    if n == 0 {
        assert(s.subrange(i, i) =~= Seq::<char>::empty());
    } else {
        lemma_plain_text(s, i + 1, n - 1);
        assert(is_plain(s[i]));
        assert(seq![s[i]] + s.subrange(i + 1, i + n) =~= s.subrange(i, i + n));
    }
}

/// The body of a refusal is a JSON text, and stands for an object with the
/// members `ok`, which is `false`, and `err`, which is the message.
pub proof fn lemma_refusal_parses(message: Seq<char>)
    requires
        all_plain(message),
    ensures
        parse(refusal_body(message)) == Some(refusal_value(message)),
{
    reveal_strlit("{\"ok\": false, \"err\": \"");
    reveal_strlit("\"}");
    reveal_strlit("ok");
    reveal_strlit("err");
    reveal_strlit("true");
    reveal_strlit("false");
    let s = refusal_body(message);
    let n = message.len() as int;
    let depth = (MAX_DEPTH - 1) as nat;
    assert(s.len() == 24 + n);
    assert(s[0] == '{' && s[1] == '"' && s[2] == 'o' && s[3] == 'k' && s[4] == '"');
    assert(s[5] == ':' && s[6] == ' ' && s[7] == 'f' && s[8] == 'a' && s[9] == 'l');
    assert(s[10] == 's' && s[11] == 'e' && s[12] == ',' && s[13] == ' ' && s[14] == '"');
    assert(s[15] == 'e' && s[16] == 'r' && s[17] == 'r' && s[18] == '"' && s[19] == ':');
    assert(s[20] == ' ' && s[21] == '"');
    assert(s[22 + n] == '"' && s[23 + n] == '}');
    assert forall|k: int| 22 <= k < 22 + n implies is_plain(#[trigger] s[k]) by {
        assert(s[k] == message[k - 22]);
    }
    // The second member's value: the message.
    lemma_plain_text(s, 22, n);
    assert(s.subrange(22, 22 + n) =~= message);
    assert(skip_space(s, 21) == 21);
    assert(skip_space(s, 20) == 21);
    assert(value_at(s, 20, depth) == Some((JsonValue::Str(message), 23 + n)));
    // The second member's name.
    lemma_plain_text(s, 15, 3);
    assert(s.subrange(15, 18) =~= "err"@);
    assert(skip_space(s, 14) == 14);
    assert(skip_space(s, 13) == 14);
    assert(skip_space(s, 19) == 19);
    assert(skip_space(s, 23 + n) == 23 + n);
    let second = seq![("err"@, JsonValue::Str(message))];
    assert(members_at(s, 13, depth) == Some((second, 24 + n)));
    // The first member's value: `false`.
    assert(skip_space(s, 7) == 7);
    assert(skip_space(s, 6) == 7);
    assert(!has_word(s, 7, "true"@)) by {
        if has_word(s, 7, "true"@) {
            assert(s.subrange(7, 11)[0] == 't');
        }
    }
    assert(has_word(s, 7, "false"@)) by {
        assert(s.subrange(7, 12) =~= "false"@);
    }
    assert(value_at(s, 6, depth) == Some((JsonValue::Bool(false), 12int)));
    // The first member's name, and both members.
    lemma_plain_text(s, 2, 2);
    assert(s.subrange(2, 4) =~= "ok"@);
    assert(skip_space(s, 1) == 1);
    assert(skip_space(s, 5) == 5);
    assert(skip_space(s, 12) == 12);
    let first = seq![("ok"@, JsonValue::Bool(false))];
    let both = seq![("ok"@, JsonValue::Bool(false)), ("err"@, JsonValue::Str(message))];
    assert(first + second =~= both);
    assert(members_at(s, 1, depth) == after(first, members_at(s, 13, depth)));
    assert(members_at(s, 1, depth) == Some((both, 24 + n)));
    // The object, and the end of the text.
    assert(skip_space(s, 0) == 0);
    assert(value_at(s, 0, MAX_DEPTH as nat) == Some((JsonValue::Object(both), 24 + n)));
    assert(skip_space(s, 24 + n) == 24 + n);
}

/// The members `ok` and `err` of what the body of a refusal stands for.
pub proof fn lemma_refusal_fields(message: Seq<char>)
    ensures
        field::<bool>(refusal_value(message), "ok"@) == Some(false),
        field::<String>(refusal_value(message), "err"@) == Some(message),
{
    reveal_strlit("ok");
    reveal_strlit("err");
    let both = seq![("ok"@, JsonValue::Bool(false)), ("err"@, JsonValue::Str(message))];
    let first = seq![("ok"@, JsonValue::Bool(false))];
    assert(both.drop_last() =~= first);
    assert("ok"@ != "err"@) by {
        assert("ok"@.len() != "err"@.len());
    }
    assert(member_of(both, "err"@) == Some(JsonValue::Str(message)));
    assert(member_of(first, "ok"@) == Some(JsonValue::Bool(false)));
    assert(member_of(both, "ok"@) == member_of(first, "ok"@));
}

/// The body `{"ok": false, "err": "<message>"}` gives an API error that
/// holds `<message>`, character for character, whatever type of payload the
/// caller expects and whether it expects one or none. A message is any text
/// without a quote, a backslash or a control character, which a body would
/// have to write as an escape.
pub proof fn lemma_refusal_body_gives_api_error<T: FromJson>(message: Seq<char>, expect_data: bool)
    requires
        all_plain(message),
    ensures
        response_of::<T>(refusal_body(message), expect_data) == Err::<Option<T::Model>, ErrorModel>(
            ErrorModel::Api(message),
        ),
        payload_of::<T>(refusal_body(message)) == Err::<T::Model, ErrorModel>(
            ErrorModel::Api(message),
        ),
        reply_of::<T>(Ok(refusal_body(message))) == Err::<T::Model, ErrorModel>(
            ErrorModel::Api(message),
        ),
{
    lemma_refusal_parses(message);
    lemma_refusal_fields(message);
}

/// Decoding a list neither reorders its items nor drops or doubles one: what
/// an array decodes to has as many items as the array, and each is what the
/// item at its place decodes to.
pub proof fn lemma_list_keeps_order<T: FromJson>(items: Seq<JsonValue>, out: Seq<T::Model>)
    requires
        Vec::<T>::decoded(JsonValue::Array(items)) == Some(out),
    ensures
        out.len() == items.len(),
        forall|i: int| 0 <= i < items.len() ==> T::decoded(items[i]) == Some(#[trigger] out[i]),
{
    assert(all_decode::<T>(items));
    assert(out == decoded_items::<T>(items));
    assert forall|i: int| 0 <= i < items.len() implies T::decoded(items[i]) == Some(
        #[trigger] out[i],
    ) by {
        assert(T::decoded(items[i]) is Some);
    }
}

/// The logins of an access log are the items of the array `logins`, each in
/// its place.
pub proof fn lemma_logins_keep_order(value: JsonValue, logs: AccessLogsResponseModel)
    requires
        AccessLogsResponse::decoded(value) == Some(logs),
    ensures
        field_of(value, "logins"@) matches Some(JsonValue::Array(items)) && logs.logins.len()
            == items.len() && forall|i: int|
            0 <= i < items.len() ==> LoginInfo::decoded(items[i]) == Some(
                #[trigger] logs.logins[i],
            ),
{
    let listed = field_of(value, "logins"@)->0;
    assert(Vec::<LoginInfo>::decoded(listed) == Some(logs.logins));
    match listed {
        JsonValue::Array(items) => {
            lemma_list_keeps_order::<LoginInfo>(items, logs.logins);
        },
        _ => {},
    }
}

/// The parameters of `access_logs` hold `count` where a count was given and
/// `page` where a page was given, each in decimal, and nothing else: with
/// neither given they are empty.
pub proof fn lemma_access_logs_params(count: Option<u32>, page: Option<u32>)
    ensures
        access_logs_params_of(count, page).dom().contains("count"@) <==> count is Some,
        access_logs_params_of(count, page).dom().contains("page"@) <==> page is Some,
        forall|name: Seq<char>| #[trigger]
            access_logs_params_of(count, page).dom().contains(name) ==> name == "count"@ || name
                == "page"@,
        count matches Some(c) ==> access_logs_params_of(count, page)["count"@] == decimal(
            c as nat,
        ),
        page matches Some(p) ==> access_logs_params_of(count, page)["page"@] == decimal(p as nat),
        count is None && page is None ==> access_logs_params_of(count, page) == Map::<
            Seq<char>,
            Seq<char>,
        >::empty(),
{
    reveal_strlit("count");
    reveal_strlit("page");
    assert("count"@ != "page"@) by {
        assert("count"@.len() != "page"@.len());
    }
}

/// A count that is sent can be read back from the parameters: the decimal
/// text under `count` reads as the number that was given, and so does the one
/// under `page`.
pub proof fn lemma_sent_numbers_read_back(count: Option<u32>, page: Option<u32>)
    ensures
        count matches Some(c) ==> spec_parse_u32(access_logs_params_of(count, page)["count"@])
            == Some(c),
        page matches Some(p) ==> spec_parse_u32(access_logs_params_of(count, page)["page"@])
            == Some(p),
{
    lemma_access_logs_params(count, page);
    if let Some(c) = count {
        lemma_decimal_round_trip(c);
    }
    if let Some(p) = page {
        lemma_decimal_round_trip(p);
    }
}

/// The flag of a decoded icon is the flag that the body holds: `true` for
/// `true` and `false` for `false`.
pub proof fn lemma_icon_flag_is_kept(value: JsonValue, info: InfoResponseModel)
    requires
        InfoResponse::decoded(value) == Some(info),
    ensures
        field_of(value, "team"@) matches Some(team) && field_of(team, "icon"@) matches Some(icon)
            && field_of(icon, "image_default"@) == Some(
            JsonValue::Bool(info.team.icon.image_default),
        ),
{
    let team = field_of(value, "team"@)->0;
    assert(TeamInfo::decoded(team) == Some(info.team));
    let icon = field_of(team, "icon"@)->0;
    assert(IconInfo::decoded(icon) == Some(info.team.icon));
    assert(field::<bool>(icon, "image_default"@) == Some(info.team.icon.image_default));
}

/// A body that the server accepted but that has no team, or a team without
/// an `id`, gives a decode error and no record with parts missing.
pub proof fn lemma_info_needs_team_id(body: Seq<char>, value: JsonValue)
    requires
        parse(body) == Some(value),
        field::<bool>(value, "ok"@) == Some(true),
        match field_of(value, "team"@) {
            Some(team) => field_of(team, "id"@) is None,
            None => true,
        },
    ensures
        payload_of::<InfoResponse>(body) == Err::<InfoResponseModel, ErrorModel>(
            ErrorModel::Decode(DecodeError::Schema),
        ),
        reply_of::<InfoResponse>(Ok(body)) == Err::<InfoResponseModel, ErrorModel>(
            ErrorModel::Decode(DecodeError::Schema),
        ),
{
}

/// A team that was decoded has every one of its parts, each as the body has
/// it: no record is handed out with a part made up.
pub proof fn lemma_info_is_whole(body: Seq<char>, info: InfoResponseModel)
    requires
        payload_of::<InfoResponse>(body) == Ok::<InfoResponseModel, ErrorModel>(info),
    ensures
        parse(body) matches Some(value) && field_of(value, "team"@) matches Some(team) && {
            &&& field::<String>(team, "id"@) == Some(info.team.id)
            &&& field::<String>(team, "name"@) == Some(info.team.name)
            &&& field::<String>(team, "domain"@) == Some(info.team.domain)
            &&& field::<String>(team, "email_domain"@) == Some(info.team.email_domain)
            &&& field::<IconInfo>(team, "icon"@) == Some(info.team.icon)
        },
{
    let value = parse(body)->0;
    assert(InfoResponse::decoded(value) == Some(info));
    let team = field_of(value, "team"@)->0;
    assert(TeamInfo::decoded(team) == Some(info.team));
}

} // verus!
