//! HTTP requests the library prepares for the outside APIs to perform.
use vstd::prelude::*;
use crate::calendar::Date;
use crate::models::{schedule_type_name, ScheduleType};
use crate::text::{copy_string, decimal, digit, digit_char, push_char, push_decimal, push_str};

verus! {

/// One `key=value` query parameter.
#[derive(Debug)]
pub struct QueryParam {
    pub key: String,
    pub value: String,
}

impl QueryParam {
    pub fn new(key: &str, value: &str) -> (r: QueryParam)
        ensures
            r.key@ == key@,
            r.value@ == value@,
    {
        QueryParam { key: copy_string(key), value: copy_string(value) }
    }
}

/// A `GET` request: full URL and query parameters in order.
#[derive(Debug)]
pub struct ApiRequest {
    pub url: String,
    pub query: Vec<QueryParam>,
}

/// Base URL of the university's schedule API.
pub const MPEI_BASE_URL: &'static str = "http://ts.mpei.ru/api";

/// A number below 100 with two digits.
pub open spec fn two_digit_text(n: int) -> Seq<char> {
    seq![digit_char(n / 10), digit_char(n % 10)]
}

/// A date as the university's API writes it: `yyyy.mm.dd`.
pub open spec fn mpei_date_text(d: Date) -> Seq<char> {
    decimal(d.year as int) + seq!['.'] + two_digit_text(d.month as int) + seq!['.'] + two_digit_text(d.day as int)
}

pub fn format_mpei_date(d: &Date) -> (r: String)
    requires
        d.wf(),
    ensures
        r@ == mpei_date_text(*d),
{
    let mut s = String::new();
    push_decimal(&mut s, d.year as i64);
    push_char(&mut s, '.');
    push_char(&mut s, digit((d.month / 10) as u64));
    push_char(&mut s, digit((d.month % 10) as u64));
    push_char(&mut s, '.');
    push_char(&mut s, digit((d.day / 10) as u64));
    push_char(&mut s, digit((d.day % 10) as u64));
    assert(s@ =~= mpei_date_text(*d));
    s
}

/// `GET /search?term=...&type=...` of the university's API.
pub fn mpei_search_request(query: &str, schedule_type: ScheduleType) -> (r: ApiRequest)
    ensures
        r.url@ == MPEI_BASE_URL@ + "/search"@,
        r.query@.len() == 2,
        r.query@[0].key@ == "term"@ && r.query@[0].value@ == query@,
        r.query@[1].key@ == "type"@ && r.query@[1].value@ == schedule_type_name(schedule_type),
{
    let mut url = String::new();
    push_str(&mut url, MPEI_BASE_URL);
    push_str(&mut url, "/search");
    let mut q: Vec<QueryParam> = Vec::new();
    q.push(QueryParam::new("term", query));
    q.push(QueryParam::new("type", schedule_type.as_str()));
    ApiRequest { url, query: q }
}

/// `GET /schedule/{type}/{id}?start=...&finish=...&lng=1` of the university's API: the
/// classes of schedule `id` from `start` to `finish`.
pub fn mpei_schedule_request(schedule_type: ScheduleType, id: i64, start: &Date, finish: &Date) -> (r: ApiRequest)
    requires
        start.wf(),
        finish.wf(),
    ensures
        r.url@ == MPEI_BASE_URL@ + "/schedule/"@ + schedule_type_name(schedule_type) + "/"@ + decimal(id as int),
        r.query@.len() == 3,
        r.query@[0].key@ == "start"@ && r.query@[0].value@ == mpei_date_text(*start),
        r.query@[1].key@ == "finish"@ && r.query@[1].value@ == mpei_date_text(*finish),
        r.query@[2].key@ == "lng"@ && r.query@[2].value@ == "1"@,
{
    let mut url = String::new();
    push_str(&mut url, MPEI_BASE_URL);
    push_str(&mut url, "/schedule/");
    push_str(&mut url, schedule_type.as_str());
    push_str(&mut url, "/");
    push_decimal(&mut url, id);
    let mut q: Vec<QueryParam> = Vec::new();
    let s = format_mpei_date(start);
    let f = format_mpei_date(finish);
    q.push(QueryParam::new("start", s.as_str()));
    q.push(QueryParam::new("finish", f.as_str()));
    q.push(QueryParam::new("lng", "1"));
    assert(url@ =~= MPEI_BASE_URL@ + "/schedule/"@ + schedule_type_name(schedule_type) + "/"@ + decimal(id as int));
    ApiRequest { url, query: q }
}

/// `GET {base}/v1/{type}/{name}/schedule/{offset}` of the schedule service.
pub fn schedule_service_request(base_url: &str, schedule_type: ScheduleType, name: &str, offset: i32) -> (r: ApiRequest)
    ensures
        r.url@ == base_url@ + "/v1/"@ + schedule_type_name(schedule_type) + "/"@ + name@ + "/schedule/"@ + decimal(offset as int),
        r.query@.len() == 0,
{
    let mut url = String::new();
    push_str(&mut url, base_url);
    push_str(&mut url, "/v1/");
    push_str(&mut url, schedule_type.as_str());
    push_str(&mut url, "/");
    push_str(&mut url, name);
    push_str(&mut url, "/schedule/");
    push_decimal(&mut url, offset as i64);
    assert(url@ =~= base_url@ + "/v1/"@ + schedule_type_name(schedule_type) + "/"@ + name@ + "/schedule/"@ + decimal(offset as int));
    ApiRequest { url, query: Vec::new() }
}

/// `GET {base}/v1/search?q=...[&type=...]` of the schedule service.
pub fn search_service_request(base_url: &str, query: &str, schedule_type: Option<ScheduleType>) -> (r: ApiRequest)
    ensures
        r.url@ == base_url@ + "/v1/search"@,
        r.query@.len() == (if schedule_type is Some { 2int } else { 1int }),
        r.query@[0].key@ == "q"@ && r.query@[0].value@ == query@,
        schedule_type matches Some(t) ==> r.query@[1].key@ == "type"@ && r.query@[1].value@ == schedule_type_name(t),
{
    let mut url = String::new();
    push_str(&mut url, base_url);
    push_str(&mut url, "/v1/search");
    let mut q: Vec<QueryParam> = Vec::new();
    q.push(QueryParam::new("q", query));
    if let Some(t) = schedule_type {
        q.push(QueryParam::new("type", t.as_str()));
    }
    ApiRequest { url, query: q }
}

} // verus!
