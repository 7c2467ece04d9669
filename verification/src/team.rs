//! The team endpoints: `team.accessLogs` and `team.info`.

use vstd::prelude::*;
use crate::api::{finish, reply_model, reply_of, result_model, ApiResult};
use crate::decimal::{decimal, u32_to_string};
use crate::decode::{field, read_field, FromJson};
use crate::json::{Json, JsonValue};
use crate::paging::Pagination;
use crate::params::Params;
use crate::sender::SlackWebRequestSender;

verus! {

/// One login to the team.
#[derive(Clone, Debug, PartialEq, Eq)]
pub struct LoginInfo {
    pub user_id: String,
    pub username: String,
    pub date_first: u32,
    pub date_last: u32,
    pub count: u32,
    pub ip: String,
    pub user_agent: String,
    pub isp: String,
    pub country: String,
    pub region: String,
}

/// The mathematical model of a `LoginInfo`.
pub struct LoginInfoModel {
    pub user_id: Seq<char>,
    pub username: Seq<char>,
    pub date_first: u32,
    pub date_last: u32,
    pub count: u32,
    pub ip: Seq<char>,
    pub user_agent: Seq<char>,
    pub isp: Seq<char>,
    pub country: Seq<char>,
    pub region: Seq<char>,
}

impl View for LoginInfo {
    type V = LoginInfoModel;

    open spec fn view(&self) -> LoginInfoModel {
        LoginInfoModel {
            user_id: self.user_id@,
            username: self.username@,
            date_first: self.date_first,
            date_last: self.date_last,
            count: self.count,
            ip: self.ip@,
            user_agent: self.user_agent@,
            isp: self.isp@,
            country: self.country@,
            region: self.region@,
        }
    }
}

impl FromJson for LoginInfo {
    type Model = LoginInfoModel;

    open spec fn model(&self) -> LoginInfoModel {
        self@
    }

    /// An object with the strings `user_id`, `username`, `ip`, `user_agent`,
    /// `isp`, `country` and `region` and the numbers `date_first`,
    /// `date_last` and `count`.
    open spec fn decoded(value: JsonValue) -> Option<LoginInfoModel> {
        if field::<String>(value, "user_id"@) is Some && field::<String>(value, "username"@) is Some
            && field::<u32>(value, "date_first"@) is Some && field::<u32>(value, "date_last"@)
            is Some && field::<u32>(value, "count"@) is Some && field::<String>(value, "ip"@)
            is Some && field::<String>(value, "user_agent"@) is Some && field::<String>(
            value,
            "isp"@,
        ) is Some && field::<String>(value, "country"@) is Some && field::<String>(
            value,
            "region"@,
        ) is Some {
            Some(
                LoginInfoModel {
                    user_id: field::<String>(value, "user_id"@)->0,
                    username: field::<String>(value, "username"@)->0,
                    date_first: field::<u32>(value, "date_first"@)->0,
                    date_last: field::<u32>(value, "date_last"@)->0,
                    count: field::<u32>(value, "count"@)->0,
                    ip: field::<String>(value, "ip"@)->0,
                    user_agent: field::<String>(value, "user_agent"@)->0,
                    isp: field::<String>(value, "isp"@)->0,
                    country: field::<String>(value, "country"@)->0,
                    region: field::<String>(value, "region"@)->0,
                },
            )
        } else {
            None
        }
    }

    fn from_json(json: &Json) -> (r: Option<LoginInfo>) {
        let user_id = read_field::<String>(json, "user_id")?;
        let username = read_field::<String>(json, "username")?;
        let date_first = read_field::<u32>(json, "date_first")?;
        let date_last = read_field::<u32>(json, "date_last")?;
        let count = read_field::<u32>(json, "count")?;
        let ip = read_field::<String>(json, "ip")?;
        let user_agent = read_field::<String>(json, "user_agent")?;
        let isp = read_field::<String>(json, "isp")?;
        let country = read_field::<String>(json, "country")?;
        let region = read_field::<String>(json, "region")?;
        Some(
            LoginInfo {
                user_id,
                username,
                date_first,
                date_last,
                count,
                ip,
                user_agent,
                isp,
                country,
                region,
            },
        )
    }
}

/// What `team.accessLogs` answers: the logins, in the order in which the
/// server listed them, and the page that they are.
#[derive(Clone, Debug, PartialEq, Eq)]
pub struct AccessLogsResponse {
    pub logins: Vec<LoginInfo>,
    pub paging: Pagination,
}

/// The mathematical model of an `AccessLogsResponse`.
pub struct AccessLogsResponseModel {
    pub logins: Seq<LoginInfoModel>,
    pub paging: Pagination,
}

impl View for AccessLogsResponse {
    type V = AccessLogsResponseModel;

    open spec fn view(&self) -> AccessLogsResponseModel {
        AccessLogsResponseModel { logins: self.logins.model(), paging: self.paging }
    }
}

impl FromJson for AccessLogsResponse {
    type Model = AccessLogsResponseModel;

    open spec fn model(&self) -> AccessLogsResponseModel {
        self@
    }

    /// An object with an array `logins` of logins and an object `paging`.
    open spec fn decoded(value: JsonValue) -> Option<AccessLogsResponseModel> {
        if field::<Vec<LoginInfo>>(value, "logins"@) is Some && field::<Pagination>(
            value,
            "paging"@,
        ) is Some {
            Some(
                AccessLogsResponseModel {
                    logins: field::<Vec<LoginInfo>>(value, "logins"@)->0,
                    paging: field::<Pagination>(value, "paging"@)->0,
                },
            )
        } else {
            None
        }
    }

    fn from_json(json: &Json) -> (r: Option<AccessLogsResponse>) {
        let logins = read_field::<Vec<LoginInfo>>(json, "logins")?;
        let paging = read_field::<Pagination>(json, "paging")?;
        Some(AccessLogsResponse { logins, paging })
    }
}

/// The icon of a team, in six sizes.
#[derive(Clone, Debug, PartialEq, Eq)]
pub struct IconInfo {
    pub image_34: String,
    pub image_44: String,
    pub image_68: String,
    pub image_88: String,
    pub image_102: String,
    pub image_132: String,
    /// Whether the team has kept the icon that it was given.
    pub image_default: bool,
}

/// The mathematical model of an `IconInfo`.
pub struct IconInfoModel {
    pub image_34: Seq<char>,
    pub image_44: Seq<char>,
    pub image_68: Seq<char>,
    pub image_88: Seq<char>,
    pub image_102: Seq<char>,
    pub image_132: Seq<char>,
    pub image_default: bool,
}

impl View for IconInfo {
    type V = IconInfoModel;

    open spec fn view(&self) -> IconInfoModel {
        IconInfoModel {
            image_34: self.image_34@,
            image_44: self.image_44@,
            image_68: self.image_68@,
            image_88: self.image_88@,
            image_102: self.image_102@,
            image_132: self.image_132@,
            image_default: self.image_default,
        }
    }
}

impl FromJson for IconInfo {
    type Model = IconInfoModel;

    open spec fn model(&self) -> IconInfoModel {
        self@
    }

    /// An object with the strings `image_34`, `image_44`, `image_68`,
    /// `image_88`, `image_102` and `image_132` and the boolean
    /// `image_default`.
    open spec fn decoded(value: JsonValue) -> Option<IconInfoModel> {
        if field::<String>(value, "image_34"@) is Some && field::<String>(value, "image_44"@)
            is Some && field::<String>(value, "image_68"@) is Some && field::<String>(
            value,
            "image_88"@,
        ) is Some && field::<String>(value, "image_102"@) is Some && field::<String>(
            value,
            "image_132"@,
        ) is Some && field::<bool>(value, "image_default"@) is Some {
            Some(
                IconInfoModel {
                    image_34: field::<String>(value, "image_34"@)->0,
                    image_44: field::<String>(value, "image_44"@)->0,
                    image_68: field::<String>(value, "image_68"@)->0,
                    image_88: field::<String>(value, "image_88"@)->0,
                    image_102: field::<String>(value, "image_102"@)->0,
                    image_132: field::<String>(value, "image_132"@)->0,
                    image_default: field::<bool>(value, "image_default"@)->0,
                },
            )
        } else {
            None
        }
    }

    fn from_json(json: &Json) -> (r: Option<IconInfo>) {
        let image_34 = read_field::<String>(json, "image_34")?;
        let image_44 = read_field::<String>(json, "image_44")?;
        let image_68 = read_field::<String>(json, "image_68")?;
        let image_88 = read_field::<String>(json, "image_88")?;
        let image_102 = read_field::<String>(json, "image_102")?;
        let image_132 = read_field::<String>(json, "image_132")?;
        let image_default = read_field::<bool>(json, "image_default")?;
        Some(
            IconInfo {
                image_34,
                image_44,
                image_68,
                image_88,
                image_102,
                image_132,
                image_default,
            },
        )
    }
}

/// A team.
#[derive(Clone, Debug, PartialEq, Eq)]
pub struct TeamInfo {
    pub id: String,
    pub name: String,
    pub domain: String,
    pub email_domain: String,
    pub icon: IconInfo,
}

/// The mathematical model of a `TeamInfo`.
pub struct TeamInfoModel {
    pub id: Seq<char>,
    pub name: Seq<char>,
    pub domain: Seq<char>,
    pub email_domain: Seq<char>,
    pub icon: IconInfoModel,
}

impl View for TeamInfo {
    type V = TeamInfoModel;

    open spec fn view(&self) -> TeamInfoModel {
        TeamInfoModel {
            id: self.id@,
            name: self.name@,
            domain: self.domain@,
            email_domain: self.email_domain@,
            icon: self.icon@,
        }
    }
}

impl FromJson for TeamInfo {
    type Model = TeamInfoModel;

    open spec fn model(&self) -> TeamInfoModel {
        self@
    }

    /// An object with the strings `id`, `name`, `domain` and `email_domain`
    /// and the icon `icon`.
    open spec fn decoded(value: JsonValue) -> Option<TeamInfoModel> {
        if field::<String>(value, "id"@) is Some && field::<String>(value, "name"@) is Some
            && field::<String>(value, "domain"@) is Some && field::<String>(
            value,
            "email_domain"@,
        ) is Some && field::<IconInfo>(value, "icon"@) is Some {
            Some(
                TeamInfoModel {
                    id: field::<String>(value, "id"@)->0,
                    name: field::<String>(value, "name"@)->0,
                    domain: field::<String>(value, "domain"@)->0,
                    email_domain: field::<String>(value, "email_domain"@)->0,
                    icon: field::<IconInfo>(value, "icon"@)->0,
                },
            )
        } else {
            None
        }
    }

    fn from_json(json: &Json) -> (r: Option<TeamInfo>) {
        let id = read_field::<String>(json, "id")?;
        let name = read_field::<String>(json, "name")?;
        let domain = read_field::<String>(json, "domain")?;
        let email_domain = read_field::<String>(json, "email_domain")?;
        let icon = read_field::<IconInfo>(json, "icon")?;
        Some(TeamInfo { id, name, domain, email_domain, icon })
    }
}

/// What `team.info` answers: the team.
#[derive(Clone, Debug, PartialEq, Eq)]
pub struct InfoResponse {
    pub team: TeamInfo,
}

/// The mathematical model of an `InfoResponse`.
pub struct InfoResponseModel {
    pub team: TeamInfoModel,
}

impl View for InfoResponse {
    type V = InfoResponseModel;

    open spec fn view(&self) -> InfoResponseModel {
        InfoResponseModel { team: self.team@ }
    }
}

impl FromJson for InfoResponse {
    type Model = InfoResponseModel;

    open spec fn model(&self) -> InfoResponseModel {
        self@
    }

    /// An object with the team `team`.
    open spec fn decoded(value: JsonValue) -> Option<InfoResponseModel> {
        match field::<TeamInfo>(value, "team"@) {
            Some(team) => Some(InfoResponseModel { team }),
            None => None,
        }
    }

    fn from_json(json: &Json) -> (r: Option<InfoResponse>) {
        let team = read_field::<TeamInfo>(json, "team")?;
        Some(InfoResponse { team })
    }
}

/// The parameters that `access_logs` sends: `count` and `page`, each in
/// decimal and each only where it was given.
pub open spec fn access_logs_params_of(count: Option<u32>, page: Option<u32>) -> Map<
    Seq<char>,
    Seq<char>,
> {
    let counted = match count {
        Some(c) => Map::<Seq<char>, Seq<char>>::empty().insert("count"@, decimal(c as nat)),
        None => Map::<Seq<char>, Seq<char>>::empty(),
    };
    match page {
        Some(p) => counted.insert("page"@, decimal(p as nat)),
        None => counted,
    }
}

/// Builds the parameters that `access_logs` sends.
pub fn access_logs_params(count: Option<u32>, page: Option<u32>) -> (params: Params)
    ensures
        params@ == access_logs_params_of(count, page),
{
    let mut params = Params::new();
    if let Some(c) = count {
        params.insert("count", u32_to_string(c));
    }
    if let Some(p) = page {
        params.insert("page", u32_to_string(p));
    }
    params
}

/// Gets the access logs of the team: sends `team.accessLogs` with the
/// parameters that were given, once, and decodes what came back.
pub fn access_logs<R: SlackWebRequestSender>(
    client: &R,
    token: &str,
    count: Option<u32>,
    page: Option<u32>,
) -> (result: ApiResult<AccessLogsResponse>)
    ensures
        exists|reply: Result<Seq<char>, Seq<char>>|
            #![trigger reply_of::<AccessLogsResponse>(reply)]
            client.may_reply(
                "team.accessLogs"@,
                token@,
                access_logs_params_of(count, page),
                reply,
            ) && result_model(result) == reply_of::<AccessLogsResponse>(reply),
{
    let params = access_logs_params(count, page);
    let reply = client.send_authed("team.accessLogs", token, params);
    let ghost seen = reply_model(reply);
    let result = finish::<AccessLogsResponse>(reply);
    assert(result_model(result) == reply_of::<AccessLogsResponse>(seen));
    result
}

/// Gets information about the team: sends `team.info` with no parameters,
/// once, and decodes what came back.
pub fn info<R: SlackWebRequestSender>(client: &R, token: &str) -> (result: ApiResult<InfoResponse>)
    ensures
        exists|reply: Result<Seq<char>, Seq<char>>|
            #![trigger reply_of::<InfoResponse>(reply)]
            client.may_reply(
                "team.info"@,
                token@,
                Map::<Seq<char>, Seq<char>>::empty(),
                reply,
            ) && result_model(result) == reply_of::<InfoResponse>(reply),
{
    let reply = client.send_authed("team.info", token, Params::new());
    let ghost seen = reply_model(reply);
    let result = finish::<InfoResponse>(reply);
    assert(result_model(result) == reply_of::<InfoResponse>(seen));
    result
}

} // verus!
