//! Withdrawal requests: creating one, fetching one, and listing them all.
//!
//! The creation input is encoded to its JSON body against an exact
//! character-level specification; the responses are decoded like the
//! utility endpoints, with the richer withdrawal record checked field by
//! field.

use vstd::prelude::*;
use vstd::string::StringExecFns;

use crate::ZebedeeClient;
use crate::error::{spec_is_decode_error, spec_is_status_error, spec_status_ok, status_ok};
use crate::error::{DecodeFailure, ZebedeeError};
use crate::json::{
    chars_of, chars_to_string, dec_val_u32, elems_view, get_opt_bool, get_opt_string,
    get_req_string, is_digit, json_v, lemma_members_view, members_view, obj_lookup, opt_view,
    parse_json, spec_digits_end, spec_is_digit,
    push_json_string, push_str_chars, push_u32_dec, spec_dec_str, spec_dec_val,
    spec_is_dec_digits, spec_json_str_lit, spec_obj_get, spec_opt_bool, spec_opt_str,
    spec_parse_json, spec_render, spec_req_str, u32_dec_chars, Json, JsonV,
};

verus! {

/// The invoice embedded in a withdrawal request: the payment-request
/// strings (standard and fast variants) and their URI encodings.
#[derive(Debug)]
pub struct InvoiceData {
    pub request: String,
    pub fast_request: String,
    pub uri: String,
    pub fast_uri: String,
}

/// One withdrawal request as the service reports it. The timestamps are
/// kept as the service writes them on the wire, string-encoded.
#[derive(Debug)]
pub struct WithdrawalRequestsData {
    pub id: String,
    pub unit: String,
    pub amount: String,
    pub created_at: String,
    pub expires_at: String,
    pub internal_id: String,
    pub description: String,
    pub callback_url: String,
    pub status: String,
    pub invoice: InvoiceData,
}

/// The envelope of the list-all endpoint.
#[derive(Debug)]
pub struct AllWithdrawalRequestsRes {
    pub message: Option<String>,
    pub data: Option<Vec<WithdrawalRequestsData>>,
    pub success: Option<bool>,
}

/// The envelope of the fetch-one endpoint.
#[derive(Debug)]
pub struct GetWithdrawalRequestsRes {
    pub data: Option<WithdrawalRequestsData>,
    pub message: Option<String>,
    pub success: Option<bool>,
}

/// The envelope of the creation endpoint.
#[derive(Debug)]
pub struct PostWithdrawalRequestsRes {
    pub success: Option<bool>,
    pub data: Option<WithdrawalRequestsData>,
    pub message: Option<String>,
}

/// The caller-supplied input of a withdrawal request; unset fields take the
/// defaults below (expiry of 300 seconds).
#[derive(Debug)]
pub struct WithdrawalReqest {
    pub expires_in: u32,
    pub amount: String,
    pub description: String,
    pub internal_id: String,
    pub callback_url: String,
}

impl Default for WithdrawalReqest {
    /// The substitutable defaults: five minutes of validity, a zero amount,
    /// a stock description, and empty ids.
    fn default() -> (w: WithdrawalReqest)
        ensures
            w.expires_in == 300,
            w.amount@ == "0"@,
            w.description@ == "using zebedee rust sdk"@,
            w.internal_id@ == ""@,
            w.callback_url@ == ""@,
    {
        WithdrawalReqest {
            expires_in: 300,
            amount: String::from_str("0"),
            description: String::from_str("using zebedee rust sdk"),
            internal_id: String::from_str(""),
            callback_url: String::from_str(""),
        }
    }
}

/// The documented shape of the embedded invoice.
pub open spec fn spec_invoice_shape(j: JsonV) -> bool {
    &&& j is Obj
    &&& spec_req_str(j->Obj_0, "request"@) is Ok
    &&& spec_req_str(j->Obj_0, "fastRequest"@) is Ok
    &&& spec_req_str(j->Obj_0, "uri"@) is Ok
    &&& spec_req_str(j->Obj_0, "fastUri"@) is Ok
}

/// Whether `d` carries exactly the fields of the invoice `j`.
pub open spec fn spec_invoice_matches(j: JsonV, d: InvoiceData) -> bool {
    &&& j is Obj
    &&& spec_req_str(j->Obj_0, "request"@) == Ok::<_, ()>(d.request@)
    &&& spec_req_str(j->Obj_0, "fastRequest"@) == Ok::<_, ()>(d.fast_request@)
    &&& spec_req_str(j->Obj_0, "uri"@) == Ok::<_, ()>(d.uri@)
    &&& spec_req_str(j->Obj_0, "fastUri"@) == Ok::<_, ()>(d.fast_uri@)
}

/// Reads the invoice out of its JSON value.
pub fn invoice_from_json(j: &Json) -> (r: Result<InvoiceData, String>)
    ensures
        r is Ok <==> spec_invoice_shape(j@),
        r matches Ok(d) ==> spec_invoice_matches(j@, d),
{
    let fields = match j {
        Json::Obj(f) => f,
        _ => { return Err(String::from_str("$")); },
    };
    proof {
        assert(j@ == JsonV::Obj(members_view(*fields, 0)));
    }
    let request = match get_req_string(fields, "request") {
        Ok(v) => v,
        Err(_) => { return Err(String::from_str("request")); },
    };
    let fast_request = match get_req_string(fields, "fastRequest") {
        Ok(v) => v,
        Err(_) => { return Err(String::from_str("fastRequest")); },
    };
    let uri = match get_req_string(fields, "uri") {
        Ok(v) => v,
        Err(_) => { return Err(String::from_str("uri")); },
    };
    let fast_uri = match get_req_string(fields, "fastUri") {
        Ok(v) => v,
        Err(_) => { return Err(String::from_str("fastUri")); },
    };
    Ok(InvoiceData { request, fast_request, uri, fast_uri })
}

/// Whether `s` is an RFC 3339 timestamp, checked digit by digit: a date, a
/// time separated by `T` (or `t` or a space), an optional fraction, and a
/// `Z` or a numeric offset. Field ranges (month, day, hour) are the
/// service's concern and stay unchecked.
pub open spec fn spec_is_rfc3339(s: Seq<char>) -> bool {
    &&& s.len() >= 20
    &&& spec_is_digit(s[0]) && spec_is_digit(s[1]) && spec_is_digit(s[2]) && spec_is_digit(s[3])
    &&& s[4] == '-' && spec_is_digit(s[5]) && spec_is_digit(s[6])
    &&& s[7] == '-' && spec_is_digit(s[8]) && spec_is_digit(s[9])
    &&& (s[10] == 'T' || s[10] == 't' || s[10] == ' ')
    &&& spec_is_digit(s[11]) && spec_is_digit(s[12]) && s[13] == ':'
    &&& spec_is_digit(s[14]) && spec_is_digit(s[15]) && s[16] == ':'
    &&& spec_is_digit(s[17]) && spec_is_digit(s[18])
    &&& spec_rfc3339_tail(s, 19)
}

/// The tail of a timestamp after the seconds: an optional fraction, then
/// the offset.
pub open spec fn spec_rfc3339_tail(s: Seq<char>, p: int) -> bool {
    if p < s.len() && s[p] == '.' {
        p + 1 < s.len() && spec_is_digit(s[p + 1]) && spec_rfc3339_offset(
            s,
            spec_digits_end(s, p + 1),
        )
    } else {
        spec_rfc3339_offset(s, p)
    }
}

/// A timestamp's offset: `Z` (either case) or a signed hours:minutes pair,
/// filling the string exactly.
pub open spec fn spec_rfc3339_offset(s: Seq<char>, p: int) -> bool {
    if p == s.len() - 1 {
        s[p] == 'Z' || s[p] == 'z'
    } else {
        &&& p == s.len() - 6
        &&& (s[p] == '+' || s[p] == '-')
        &&& spec_is_digit(s[p + 1]) && spec_is_digit(s[p + 2])
        &&& s[p + 3] == ':'
        &&& spec_is_digit(s[p + 4]) && spec_is_digit(s[p + 5])
    }
}

/// Tests a timestamp digit by digit; agrees with [`spec_is_rfc3339`].
pub fn is_rfc3339(t: &str) -> (r: bool)
    ensures
        r == spec_is_rfc3339(t@),
{
    let s = chars_of(t);
    let n = s.len();
    if n < 20 {
        return false;
    }
    if !(is_digit(s[0]) && is_digit(s[1]) && is_digit(s[2]) && is_digit(s[3])) {
        return false;
    }
    if !(s[4] == '-' && is_digit(s[5]) && is_digit(s[6])) {
        return false;
    }
    if !(s[7] == '-' && is_digit(s[8]) && is_digit(s[9])) {
        return false;
    }
    if !(s[10] == 'T' || s[10] == 't' || s[10] == ' ') {
        return false;
    }
    if !(is_digit(s[11]) && is_digit(s[12]) && s[13] == ':') {
        return false;
    }
    if !(is_digit(s[14]) && is_digit(s[15]) && s[16] == ':') {
        return false;
    }
    if !(is_digit(s[17]) && is_digit(s[18])) {
        return false;
    }
    let mut p: usize = 19;
    if p < n && s[p] == '.' {
        if !(p + 1 < n && is_digit(s[p + 1])) {
            return false;
        }
        p = p + 2;
        while p < n && is_digit(s[p])
            invariant
                n == s@.len(),
                21 <= p <= n,
                spec_digits_end(s@, 20) == spec_digits_end(s@, p as int),
            decreases n - p,
        {
            p = p + 1;
        }
    }
    if p == n - 1 {
        s[p] == 'Z' || s[p] == 'z'
    } else if n - p == 6 {
        (s[p] == '+' || s[p] == '-') && is_digit(s[p + 1]) && is_digit(s[p + 2]) && s[p + 3] == ':'
            && is_digit(s[p + 4]) && is_digit(s[p + 5])
    } else {
        false
    }
}

/// The documented shape of one withdrawal record: nine required strings —
/// the two timestamps being well-formed RFC 3339 text — and the embedded
/// invoice.
pub open spec fn spec_wrd_shape(j: JsonV) -> bool {
    &&& j is Obj
    &&& spec_req_str(j->Obj_0, "id"@) is Ok
    &&& spec_req_str(j->Obj_0, "unit"@) is Ok
    &&& spec_req_str(j->Obj_0, "amount"@) is Ok
    &&& match spec_req_str(j->Obj_0, "createdAt"@) {
        Ok(t) => spec_is_rfc3339(t),
        Err(_) => false,
    }
    &&& match spec_req_str(j->Obj_0, "expiresAt"@) {
        Ok(t) => spec_is_rfc3339(t),
        Err(_) => false,
    }
    &&& spec_req_str(j->Obj_0, "internalId"@) is Ok
    &&& spec_req_str(j->Obj_0, "description"@) is Ok
    &&& spec_req_str(j->Obj_0, "callbackUrl"@) is Ok
    &&& spec_req_str(j->Obj_0, "status"@) is Ok
    &&& match spec_obj_get(j->Obj_0, "invoice"@) {
        Some(inv) => spec_invoice_shape(inv),
        None => false,
    }
}

/// Whether `d` carries exactly the fields of the withdrawal record `j`.
pub open spec fn spec_wrd_matches(j: JsonV, d: WithdrawalRequestsData) -> bool {
    &&& j is Obj
    &&& spec_req_str(j->Obj_0, "id"@) == Ok::<_, ()>(d.id@)
    &&& spec_req_str(j->Obj_0, "unit"@) == Ok::<_, ()>(d.unit@)
    &&& spec_req_str(j->Obj_0, "amount"@) == Ok::<_, ()>(d.amount@)
    &&& spec_req_str(j->Obj_0, "createdAt"@) == Ok::<_, ()>(d.created_at@)
    &&& spec_req_str(j->Obj_0, "expiresAt"@) == Ok::<_, ()>(d.expires_at@)
    &&& spec_req_str(j->Obj_0, "internalId"@) == Ok::<_, ()>(d.internal_id@)
    &&& spec_req_str(j->Obj_0, "description"@) == Ok::<_, ()>(d.description@)
    &&& spec_req_str(j->Obj_0, "callbackUrl"@) == Ok::<_, ()>(d.callback_url@)
    &&& spec_req_str(j->Obj_0, "status"@) == Ok::<_, ()>(d.status@)
    &&& match spec_obj_get(j->Obj_0, "invoice"@) {
        Some(inv) => spec_invoice_matches(inv, d.invoice),
        None => false,
    }
}

/// Reads one withdrawal record out of its JSON value.
pub fn wrd_from_json(j: &Json) -> (r: Result<WithdrawalRequestsData, String>)
    ensures
        r is Ok <==> spec_wrd_shape(j@),
        r matches Ok(d) ==> spec_wrd_matches(j@, d),
{
    let fields = match j {
        Json::Obj(f) => f,
        _ => { return Err(String::from_str("$")); },
    };
    proof {
        assert(j@ == JsonV::Obj(members_view(*fields, 0)));
    }
    let id = match get_req_string(fields, "id") {
        Ok(v) => v,
        Err(_) => { return Err(String::from_str("id")); },
    };
    let unit = match get_req_string(fields, "unit") {
        Ok(v) => v,
        Err(_) => { return Err(String::from_str("unit")); },
    };
    let amount = match get_req_string(fields, "amount") {
        Ok(v) => v,
        Err(_) => { return Err(String::from_str("amount")); },
    };
    let created_at = match get_req_string(fields, "createdAt") {
        Ok(v) => v,
        Err(_) => { return Err(String::from_str("createdAt")); },
    };
    let expires_at = match get_req_string(fields, "expiresAt") {
        Ok(v) => v,
        Err(_) => { return Err(String::from_str("expiresAt")); },
    };
    if !is_rfc3339(&created_at) {
        return Err(String::from_str("createdAt"));
    }
    if !is_rfc3339(&expires_at) {
        return Err(String::from_str("expiresAt"));
    }
    let internal_id = match get_req_string(fields, "internalId") {
        Ok(v) => v,
        Err(_) => { return Err(String::from_str("internalId")); },
    };
    let description = match get_req_string(fields, "description") {
        Ok(v) => v,
        Err(_) => { return Err(String::from_str("description")); },
    };
    let callback_url = match get_req_string(fields, "callbackUrl") {
        Ok(v) => v,
        Err(_) => { return Err(String::from_str("callbackUrl")); },
    };
    let status = match get_req_string(fields, "status") {
        Ok(v) => v,
        Err(_) => { return Err(String::from_str("status")); },
    };
    let invoice = match obj_lookup(fields, "invoice") {
        Some(inv) => match invoice_from_json(inv) {
            Ok(x) => x,
            Err(e) => { return Err(e); },
        },
        None => { return Err(String::from_str("invoice")); },
    };
    Ok(WithdrawalRequestsData {
        id,
        unit,
        amount,
        created_at,
        expires_at,
        internal_id,
        description,
        callback_url,
        status,
        invoice,
    })
}

/// Whether every element of `elems` is a withdrawal record.
pub open spec fn spec_wrd_list_shape(elems: Seq<JsonV>) -> bool {
    forall|i: int| 0 <= i < elems.len() ==> spec_wrd_shape(elems[i])
}

/// Whether `rs` carries exactly the records of `elems`, in order.
pub open spec fn spec_wrd_list_matches(elems: Seq<JsonV>, rs: Seq<WithdrawalRequestsData>) -> bool {
    &&& rs.len() == elems.len()
    &&& forall|i: int| 0 <= i < elems.len() ==> spec_wrd_matches(elems[i], rs[i])
}

/// Reads a whole array of withdrawal records.
pub fn wrd_list_from_json(elems: &Vec<Json>) -> (r: Result<Vec<WithdrawalRequestsData>, String>)
    ensures
        r is Ok <==> spec_wrd_list_shape(elems_view(*elems, 0)),
        r matches Ok(rs) ==> spec_wrd_list_matches(elems_view(*elems, 0), rs@),
{
    let ghost ev = elems_view(*elems, 0);
    proof {
        crate::json::lemma_elems_view(*elems, 0);
    }
    let mut out: Vec<WithdrawalRequestsData> = Vec::new();
    let mut i: usize = 0;
    while i < elems.len()
        invariant
            ev == elems_view(*elems, 0),
            ev.len() == elems@.len(),
            forall|k: int| 0 <= k < elems@.len() ==> #[trigger] ev[k] == json_v(elems@[k]),
            i <= elems@.len(),
            out@.len() == i,
            forall|k: int| 0 <= k < i ==> spec_wrd_shape(ev[k]),
            forall|k: int| 0 <= k < i ==> spec_wrd_matches(ev[k], out@[k]),
        decreases elems@.len() - i,
    {
        match wrd_from_json(&elems[i]) {
            Ok(d) => {
                out.push(d);
            },
            Err(e) => {
                proof {
                    assert(!spec_wrd_list_shape(ev)) by {
                        if spec_wrd_list_shape(ev) {
                            assert(spec_wrd_shape(ev[i as int]));
                        }
                    }
                }
                return Err(e);
            },
        }
        i = i + 1;
    }
    Ok(out)
}

/// The exact JSON body sent when creating a withdrawal request: one object
/// with the five input fields, in declaration order, nothing else.
pub open spec fn spec_withdrawal_body(w: WithdrawalReqest) -> Seq<char> {
    "{\"expiresIn\":"@ + spec_dec_str(w.expires_in as nat) + ",\"amount\":"@ + spec_json_str_lit(
        w.amount@,
    ) + ",\"description\":"@ + spec_json_str_lit(w.description@) + ",\"internalId\":"@
        + spec_json_str_lit(w.internal_id@) + ",\"callbackUrl\":"@ + spec_json_str_lit(
        w.callback_url@,
    ) + "}"@
}

/// Builds the JSON body for creating a withdrawal request. Every field of
/// the input appears in the body exactly once, encoded losslessly.
pub fn encode_withdrawal_request(w: &WithdrawalReqest) -> (r: String)
    ensures
        r@ == spec_withdrawal_body(*w),
{
    let mut out: Vec<char> = Vec::new();
    push_str_chars(&mut out, "{\"expiresIn\":");
    push_u32_dec(&mut out, w.expires_in);
    push_str_chars(&mut out, ",\"amount\":");
    push_json_string(&mut out, &w.amount);
    push_str_chars(&mut out, ",\"description\":");
    push_json_string(&mut out, &w.description);
    push_str_chars(&mut out, ",\"internalId\":");
    push_json_string(&mut out, &w.internal_id);
    push_str_chars(&mut out, ",\"callbackUrl\":");
    push_json_string(&mut out, &w.callback_url);
    push_str_chars(&mut out, "}");
    proof {
        assert(out@ =~= spec_withdrawal_body(*w));
    }
    chars_to_string(&out)
}

/// Whether the JSON value `j` is the tree form of the body this library
/// sends for the input `w`: the five fields, in order, with their values.
pub open spec fn spec_wr_input_rep(j: JsonV, w: WithdrawalReqest) -> bool {
    &&& j is Obj
    &&& j->Obj_0.len() == 5
    &&& j->Obj_0[0].0 == "expiresIn"@
    &&& j->Obj_0[0].1 matches JsonV::Num(v) && v == spec_dec_str(w.expires_in as nat)
    &&& j->Obj_0[1].0 == "amount"@
    &&& j->Obj_0[1].1 matches JsonV::Str(v) && v == w.amount@
    &&& j->Obj_0[2].0 == "description"@
    &&& j->Obj_0[2].1 matches JsonV::Str(v) && v == w.description@
    &&& j->Obj_0[3].0 == "internalId"@
    &&& j->Obj_0[3].1 matches JsonV::Str(v) && v == w.internal_id@
    &&& j->Obj_0[4].0 == "callbackUrl"@
    &&& j->Obj_0[4].1 matches JsonV::Str(v) && v == w.callback_url@
}

/// Builds the JSON tree of the creation body for `w`.
pub fn withdrawal_reqest_to_json(w: &WithdrawalReqest) -> (j: Json)
    ensures
        spec_wr_input_rep(j@, *w),
{
    let mut fields: Vec<(Vec<char>, Json)> = Vec::new();
    fields.push((chars_of("expiresIn"), Json::Num(u32_dec_chars(w.expires_in))));
    fields.push((chars_of("amount"), Json::Str(chars_of(&w.amount))));
    fields.push((chars_of("description"), Json::Str(chars_of(&w.description))));
    fields.push((chars_of("internalId"), Json::Str(chars_of(&w.internal_id))));
    fields.push((chars_of("callbackUrl"), Json::Str(chars_of(&w.callback_url))));
    let j = Json::Obj(fields);
    proof {
        let fs = j->Obj_0;
        lemma_members_view(fs, 0);
        assert(j@ == JsonV::Obj(members_view(fs, 0)));
        assert(members_view(fs, 0)[0] == (fs@[0].0@, json_v(fs@[0].1)));
        assert(members_view(fs, 0)[1] == (fs@[1].0@, json_v(fs@[1].1)));
        assert(members_view(fs, 0)[2] == (fs@[2].0@, json_v(fs@[2].1)));
        assert(members_view(fs, 0)[3] == (fs@[3].0@, json_v(fs@[3].1)));
        assert(members_view(fs, 0)[4] == (fs@[4].0@, json_v(fs@[4].1)));
    }
    j
}

/// The documented shape of a creation input read back from JSON: a
/// non-negative whole number of expiry seconds that fits in 32 bits, and
/// the four strings.
pub open spec fn spec_wr_input_shape(j: JsonV) -> bool {
    &&& j is Obj
    &&& match spec_obj_get(j->Obj_0, "expiresIn"@) {
        Some(n) => n matches JsonV::Num(v) && spec_is_dec_digits(v) && spec_dec_val(v)
            <= u32::MAX,
        None => false,
    }
    &&& spec_req_str(j->Obj_0, "amount"@) is Ok
    &&& spec_req_str(j->Obj_0, "description"@) is Ok
    &&& spec_req_str(j->Obj_0, "internalId"@) is Ok
    &&& spec_req_str(j->Obj_0, "callbackUrl"@) is Ok
}

/// Whether `w` carries exactly the fields of the creation input `j`.
pub open spec fn spec_wr_input_matches(j: JsonV, w: WithdrawalReqest) -> bool {
    &&& j is Obj
    &&& match spec_obj_get(j->Obj_0, "expiresIn"@) {
        Some(n) => n matches JsonV::Num(v) && spec_dec_val(v) == w.expires_in,
        None => false,
    }
    &&& spec_req_str(j->Obj_0, "amount"@) == Ok::<_, ()>(w.amount@)
    &&& spec_req_str(j->Obj_0, "description"@) == Ok::<_, ()>(w.description@)
    &&& spec_req_str(j->Obj_0, "internalId"@) == Ok::<_, ()>(w.internal_id@)
    &&& spec_req_str(j->Obj_0, "callbackUrl"@) == Ok::<_, ()>(w.callback_url@)
}

/// Reads a creation input back out of its JSON tree.
pub fn withdrawal_reqest_from_json(j: &Json) -> (r: Result<WithdrawalReqest, String>)
    ensures
        r is Ok <==> spec_wr_input_shape(j@),
        r matches Ok(w) ==> spec_wr_input_matches(j@, w),
{
    let fields = match j {
        Json::Obj(f) => f,
        _ => { return Err(String::from_str("$")); },
    };
    proof {
        assert(j@ == JsonV::Obj(members_view(*fields, 0)));
    }
    let expires_in = match obj_lookup(fields, "expiresIn") {
        Some(n) => match n {
            Json::Num(v) => {
                proof {
                    assert(n@ == JsonV::Num(v@));
                }
                match dec_val_u32(v) {
                    Ok(x) => x,
                    Err(_) => { return Err(String::from_str("expiresIn")); },
                }
            },
            _ => { return Err(String::from_str("expiresIn")); },
        },
        None => { return Err(String::from_str("expiresIn")); },
    };
    let amount = match get_req_string(fields, "amount") {
        Ok(v) => v,
        Err(_) => { return Err(String::from_str("amount")); },
    };
    let description = match get_req_string(fields, "description") {
        Ok(v) => v,
        Err(_) => { return Err(String::from_str("description")); },
    };
    let internal_id = match get_req_string(fields, "internalId") {
        Ok(v) => v,
        Err(_) => { return Err(String::from_str("internalId")); },
    };
    let callback_url = match get_req_string(fields, "callbackUrl") {
        Ok(v) => v,
        Err(_) => { return Err(String::from_str("callbackUrl")); },
    };
    Ok(WithdrawalReqest { expires_in, amount, description, internal_id, callback_url })
}

/// The documented shape of the creation and fetch-one envelopes: optional
/// success flag, optional message, and an optional (possibly null)
/// withdrawal record.
pub open spec fn spec_single_wrd_res_shape(j: JsonV) -> bool {
    &&& j is Obj
    &&& spec_opt_bool(j->Obj_0, "success"@) is Ok
    &&& spec_opt_str(j->Obj_0, "message"@) is Ok
    &&& match spec_obj_get(j->Obj_0, "data"@) {
        None => true,
        Some(d) => d is Null || spec_wrd_shape(d),
    }
}

/// Whether the triple of fields reflects the envelope `j` exactly.
pub open spec fn spec_single_wrd_res_matches(
    j: JsonV,
    success: Option<bool>,
    data: Option<WithdrawalRequestsData>,
    message: Option<String>,
) -> bool {
    &&& j is Obj
    &&& spec_opt_bool(j->Obj_0, "success"@) == Ok::<_, ()>(success)
    &&& spec_opt_str(j->Obj_0, "message"@) == Ok::<_, ()>(opt_view(message))
    &&& match spec_obj_get(j->Obj_0, "data"@) {
        None => data is None,
        Some(d) => if d is Null {
            data is None
        } else {
            data matches Some(dd) && spec_wrd_matches(d, dd)
        },
    }
}

/// Reads the creation envelope out of its JSON value.
pub fn post_wrd_res_from_json(j: &Json) -> (r: Result<PostWithdrawalRequestsRes, String>)
    ensures
        r is Ok <==> spec_single_wrd_res_shape(j@),
        r matches Ok(res) ==> spec_single_wrd_res_matches(j@, res.success, res.data, res.message),
{
    let fields = match j {
        Json::Obj(f) => f,
        _ => { return Err(String::from_str("$")); },
    };
    proof {
        assert(j@ == JsonV::Obj(members_view(*fields, 0)));
    }
    let success = match get_opt_bool(fields, "success") {
        Ok(v) => v,
        Err(_) => { return Err(String::from_str("success")); },
    };
    let message = match get_opt_string(fields, "message") {
        Ok(v) => v,
        Err(_) => { return Err(String::from_str("message")); },
    };
    let data = match obj_lookup(fields, "data") {
        None => None,
        Some(d) => match d {
            Json::Null => None,
            _ => match wrd_from_json(d) {
                Ok(x) => Some(x),
                Err(e) => { return Err(e); },
            },
        },
    };
    Ok(PostWithdrawalRequestsRes { success, data, message })
}

/// Reads the fetch-one envelope out of its JSON value.
pub fn get_wrd_res_from_json(j: &Json) -> (r: Result<GetWithdrawalRequestsRes, String>)
    ensures
        r is Ok <==> spec_single_wrd_res_shape(j@),
        r matches Ok(res) ==> spec_single_wrd_res_matches(j@, res.success, res.data, res.message),
{
    let fields = match j {
        Json::Obj(f) => f,
        _ => { return Err(String::from_str("$")); },
    };
    proof {
        assert(j@ == JsonV::Obj(members_view(*fields, 0)));
    }
    let success = match get_opt_bool(fields, "success") {
        Ok(v) => v,
        Err(_) => { return Err(String::from_str("success")); },
    };
    let message = match get_opt_string(fields, "message") {
        Ok(v) => v,
        Err(_) => { return Err(String::from_str("message")); },
    };
    let data = match obj_lookup(fields, "data") {
        None => None,
        Some(d) => match d {
            Json::Null => None,
            _ => match wrd_from_json(d) {
                Ok(x) => Some(x),
                Err(e) => { return Err(e); },
            },
        },
    };
    Ok(GetWithdrawalRequestsRes { data, message, success })
}

/// The documented shape of the list-all envelope: the data, when present
/// and non-null, is an array of withdrawal records.
pub open spec fn spec_all_wrd_res_shape(j: JsonV) -> bool {
    &&& j is Obj
    &&& spec_opt_bool(j->Obj_0, "success"@) is Ok
    &&& spec_opt_str(j->Obj_0, "message"@) is Ok
    &&& match spec_obj_get(j->Obj_0, "data"@) {
        None => true,
        Some(d) => d is Null || (d is Arr && spec_wrd_list_shape(d->Arr_0)),
    }
}

/// Whether `r` reflects the list-all envelope `j` exactly.
pub open spec fn spec_all_wrd_res_matches(j: JsonV, r: AllWithdrawalRequestsRes) -> bool {
    &&& j is Obj
    &&& spec_opt_bool(j->Obj_0, "success"@) == Ok::<_, ()>(r.success)
    &&& spec_opt_str(j->Obj_0, "message"@) == Ok::<_, ()>(opt_view(r.message))
    &&& match spec_obj_get(j->Obj_0, "data"@) {
        None => r.data is None,
        Some(d) => if d is Null {
            r.data is None
        } else {
            &&& d is Arr
            &&& r.data matches Some(rs)
            &&& spec_wrd_list_matches(d->Arr_0, rs@)
        },
    }
}

/// Reads the list-all envelope out of its JSON value.
pub fn all_wrd_res_from_json(j: &Json) -> (r: Result<AllWithdrawalRequestsRes, String>)
    ensures
        r is Ok <==> spec_all_wrd_res_shape(j@),
        r matches Ok(res) ==> spec_all_wrd_res_matches(j@, res),
{
    let fields = match j {
        Json::Obj(f) => f,
        _ => { return Err(String::from_str("$")); },
    };
    proof {
        assert(j@ == JsonV::Obj(members_view(*fields, 0)));
    }
    let success = match get_opt_bool(fields, "success") {
        Ok(v) => v,
        Err(_) => { return Err(String::from_str("success")); },
    };
    let message = match get_opt_string(fields, "message") {
        Ok(v) => v,
        Err(_) => { return Err(String::from_str("message")); },
    };
    let data = match obj_lookup(fields, "data") {
        None => None,
        Some(d) => match d {
            Json::Null => None,
            Json::Arr(elems) => {
                proof {
                    assert(d@ == JsonV::Arr(elems_view(*elems, 0)));
                }
                match wrd_list_from_json(elems) {
                    Ok(rs) => Some(rs),
                    Err(e) => { return Err(e); },
                }
            },
            _ => { return Err(String::from_str("data")); },
        },
    };
    Ok(AllWithdrawalRequestsRes { message, data, success })
}

/// The URL of the withdrawal-requests collection under the client's domain.
pub fn withdrawal_requests_url(client: &ZebedeeClient) -> (u: String)
    ensures
        u@ == client.domain@ + "/v0/withdrawal-requests"@,
{
    let mut u = client.domain.clone();
    u.append("/v0/withdrawal-requests");
    u
}

/// The URL of one withdrawal request under the client's domain.
pub fn withdrawal_request_url(client: &ZebedeeClient, withdrawal_id: &str) -> (u: String)
    ensures
        u@ == client.domain@ + "/v0/withdrawal-requests/"@ + withdrawal_id@,
{
    let mut u = client.domain.clone();
    u.append("/v0/withdrawal-requests/");
    u.append(withdrawal_id);
    u
}

/// Decodes one creation exchange. A non-success status yields the
/// status-level error carrying status, body and URL unmodified; a success
/// status yields a faithful reading of the body's envelope or a
/// decode-level error with the same context — never a crash, never a
/// fabricated value.
pub fn decode_create_withdrawal_request(url: &str, status: u16, body: &str) -> (r: Result<
    PostWithdrawalRequestsRes,
    ZebedeeError,
>)
    ensures
        !spec_status_ok(status) ==> (r matches Err(e) && spec_is_status_error(
            e,
            status,
            body@,
            url@,
        )),
        spec_status_ok(status) ==> match r {
            Ok(res) => spec_parse_json(body@) matches Ok(jv) && spec_single_wrd_res_shape(jv)
                && spec_single_wrd_res_matches(jv, res.success, res.data, res.message),
            Err(e) => spec_is_decode_error(e, status, body@, url@) && !(spec_parse_json(body@)
                matches Ok(jv) && spec_single_wrd_res_shape(jv)),
        },
{
    if !status_ok(status) {
        return Err(ZebedeeError::Status {
            status,
            body: String::from_str(body),
            url: String::from_str(url),
        });
    }
    match parse_json(body) {
        Err(p) => Err(ZebedeeError::Decode {
            status,
            body: String::from_str(body),
            url: String::from_str(url),
            failure: DecodeFailure::Syntax { position: p },
        }),
        Ok(j) => match post_wrd_res_from_json(&j) {
            Ok(res) => Ok(res),
            Err(e) => Err(ZebedeeError::Decode {
                status,
                body: String::from_str(body),
                url: String::from_str(url),
                failure: DecodeFailure::Shape { field: e },
            }),
        },
    }
}

/// Decodes one list-all exchange; errors carry status, body and URL as
/// [`decode_create_withdrawal_request`] describes.
pub fn decode_get_withdrawal_requests(url: &str, status: u16, body: &str) -> (r: Result<
    AllWithdrawalRequestsRes,
    ZebedeeError,
>)
    ensures
        !spec_status_ok(status) ==> (r matches Err(e) && spec_is_status_error(
            e,
            status,
            body@,
            url@,
        )),
        spec_status_ok(status) ==> match r {
            Ok(res) => spec_parse_json(body@) matches Ok(jv) && spec_all_wrd_res_shape(jv)
                && spec_all_wrd_res_matches(jv, res),
            Err(e) => spec_is_decode_error(e, status, body@, url@) && !(spec_parse_json(body@)
                matches Ok(jv) && spec_all_wrd_res_shape(jv)),
        },
{
    if !status_ok(status) {
        return Err(ZebedeeError::Status {
            status,
            body: String::from_str(body),
            url: String::from_str(url),
        });
    }
    match parse_json(body) {
        Err(p) => Err(ZebedeeError::Decode {
            status,
            body: String::from_str(body),
            url: String::from_str(url),
            failure: DecodeFailure::Syntax { position: p },
        }),
        Ok(j) => match all_wrd_res_from_json(&j) {
            Ok(res) => Ok(res),
            Err(e) => Err(ZebedeeError::Decode {
                status,
                body: String::from_str(body),
                url: String::from_str(url),
                failure: DecodeFailure::Shape { field: e },
            }),
        },
    }
}

/// Decodes one fetch-one exchange; errors carry status, body and URL as
/// [`decode_create_withdrawal_request`] describes.
pub fn decode_get_withdrawal_request(url: &str, status: u16, body: &str) -> (r: Result<
    GetWithdrawalRequestsRes,
    ZebedeeError,
>)
    ensures
        !spec_status_ok(status) ==> (r matches Err(e) && spec_is_status_error(
            e,
            status,
            body@,
            url@,
        )),
        spec_status_ok(status) ==> match r {
            Ok(res) => spec_parse_json(body@) matches Ok(jv) && spec_single_wrd_res_shape(jv)
                && spec_single_wrd_res_matches(jv, res.success, res.data, res.message),
            Err(e) => spec_is_decode_error(e, status, body@, url@) && !(spec_parse_json(body@)
                matches Ok(jv) && spec_single_wrd_res_shape(jv)),
        },
{
    if !status_ok(status) {
        return Err(ZebedeeError::Status {
            status,
            body: String::from_str(body),
            url: String::from_str(url),
        });
    }
    match parse_json(body) {
        Err(p) => Err(ZebedeeError::Decode {
            status,
            body: String::from_str(body),
            url: String::from_str(url),
            failure: DecodeFailure::Syntax { position: p },
        }),
        Ok(j) => match get_wrd_res_from_json(&j) {
            Ok(res) => Ok(res),
            Err(e) => Err(ZebedeeError::Decode {
                status,
                body: String::from_str(body),
                url: String::from_str(url),
                failure: DecodeFailure::Shape { field: e },
            }),
        },
    }
}

/// The rendered member list of a creation-input object is exactly the body
/// text between its braces.
#[verifier::rlimit(100)]
#[verifier::spinoff_prover]
proof fn lemma_wr_members_text(fields: Vec<(Vec<char>, Json)>, w: WithdrawalReqest)
    requires
        fields.len() == 5,
        fields[0].0@ == "expiresIn"@,
        fields[0].1 matches Json::Num(v) && v@ == spec_dec_str(w.expires_in as nat),
        fields[1].0@ == "amount"@,
        fields[1].1 matches Json::Str(v) && v@ == w.amount@,
        fields[2].0@ == "description"@,
        fields[2].1 matches Json::Str(v) && v@ == w.description@,
        fields[3].0@ == "internalId"@,
        fields[3].1 matches Json::Str(v) && v@ == w.internal_id@,
        fields[4].0@ == "callbackUrl"@,
        fields[4].1 matches Json::Str(v) && v@ == w.callback_url@,
    ensures
        seq!['{'] + crate::json::spec_render_members(fields, 0) + seq!['}']
            == spec_withdrawal_body(w),
{
    reveal_strlit("expiresIn");
    reveal_strlit("amount");
    reveal_strlit("description");
    reveal_strlit("internalId");
    reveal_strlit("callbackUrl");
    reveal_strlit("{\"expiresIn\":");
    reveal_strlit(",\"amount\":");
    reveal_strlit(",\"description\":");
    reveal_strlit(",\"internalId\":");
    reveal_strlit(",\"callbackUrl\":");
    reveal_strlit("}");
    crate::json::lemma_esc_plain("expiresIn"@);
    crate::json::lemma_esc_plain("amount"@);
    crate::json::lemma_esc_plain("description"@);
    crate::json::lemma_esc_plain("internalId"@);
    crate::json::lemma_esc_plain("callbackUrl"@);
    reveal_with_fuel(crate::json::spec_render_members, 7);
    assert(crate::json::spec_render_members(fields, 4) == spec_json_str_lit("callbackUrl"@)
        + seq![':'] + spec_render(fields@[4].1));
    assert(spec_render(fields@[0].1) == spec_dec_str(w.expires_in as nat));
    assert(spec_render(fields@[1].1) == spec_json_str_lit(w.amount@));
    assert(spec_render(fields@[2].1) == spec_json_str_lit(w.description@));
    assert(spec_render(fields@[3].1) == spec_json_str_lit(w.internal_id@));
    assert(spec_render(fields@[4].1) == spec_json_str_lit(w.callback_url@));
    assert(seq!['{'] + crate::json::spec_render_members(fields, 0) + seq!['}']
        =~= spec_withdrawal_body(w));
}

/// Law: the tree and the text form of a creation input agree. Rendering
/// the JSON tree this library builds for an input gives exactly the body
/// text it sends for that input.
pub proof fn lemma_withdrawal_body_agrees(j: Json, w: WithdrawalReqest)
    requires
        spec_wr_input_rep(j@, w),
    ensures
        spec_render(j) == spec_withdrawal_body(w),
{
    match j {
        Json::Obj(fields) => {
            lemma_members_view(fields, 0);
            let mv = members_view(fields, 0);
            assert(j@ == JsonV::Obj(mv));
            assert(fields.len() == 5);
            assert(mv[0] == (fields@[0].0@, json_v(fields@[0].1)));
            assert(mv[1] == (fields@[1].0@, json_v(fields@[1].1)));
            assert(mv[2] == (fields@[2].0@, json_v(fields@[2].1)));
            assert(mv[3] == (fields@[3].0@, json_v(fields@[3].1)));
            assert(mv[4] == (fields@[4].0@, json_v(fields@[4].1)));
            crate::json::lemma_json_v_num(fields@[0].1, spec_dec_str(w.expires_in as nat));
            crate::json::lemma_json_v_str(fields@[1].1, w.amount@);
            crate::json::lemma_json_v_str(fields@[2].1, w.description@);
            crate::json::lemma_json_v_str(fields@[3].1, w.internal_id@);
            crate::json::lemma_json_v_str(fields@[4].1, w.callback_url@);
            lemma_wr_members_text(fields, w);
            assert(spec_render(j) == seq!['{'] + crate::json::spec_render_members(fields, 0)
                + seq!['}']);
        },
        Json::Null => {},
        Json::Bool(_) => {},
        Json::Num(_) => {},
        Json::Str(_) => {},
        Json::Arr(_) => {},
    }
}

/// Law: the creation input survives its round trip through JSON. The tree
/// this library sends for an input `w` — the default expiry of 300 when `w`
/// was built with the defaults, caller-supplied values otherwise — is a
/// well-shaped creation input, and anything that reads back from it carries
/// every field of `w` unchanged.
pub proof fn lemma_withdrawal_request_round_trip(j: JsonV, w: WithdrawalReqest)
    requires
        spec_wr_input_rep(j, w),
    ensures
        spec_wr_input_shape(j),
        forall|r: WithdrawalReqest|
            spec_wr_input_matches(j, r) ==> r.expires_in == w.expires_in && r.amount@ == w.amount@
                && r.description@ == w.description@ && r.internal_id@ == w.internal_id@
                && r.callback_url@ == w.callback_url@,
{
    reveal_strlit("expiresIn");
    reveal_strlit("amount");
    reveal_strlit("description");
    reveal_strlit("internalId");
    reveal_strlit("callbackUrl");
    crate::json::lemma_dec_str_val(w.expires_in as nat);
    reveal_with_fuel(spec_obj_get, 6);
    let f = j->Obj_0;
    let f1 = f.drop_first();
    let f2 = f1.drop_first();
    let f3 = f2.drop_first();
    let f4 = f3.drop_first();
    assert(f1.len() == 4 && f1[0] == f[1] && f1[1] == f[2] && f1[2] == f[3] && f1[3] == f[4]);
    assert(f2.len() == 3 && f2[0] == f[2] && f2[1] == f[3] && f2[2] == f[4]);
    assert(f3.len() == 2 && f3[0] == f[3] && f3[1] == f[4]);
    assert(f4.len() == 1 && f4[0] == f[4]);
    assert("expiresIn"@.len() == 9);
    assert("amount"@.len() == 6);
    assert("description"@.len() == 11);
    assert("internalId"@.len() == 10);
    assert("callbackUrl"@.len() == 11);
    assert("description"@[0] == 'd' && "callbackUrl"@[0] == 'c');
    assert(spec_obj_get(f, "expiresIn"@) == Some(f[0].1));
    assert(spec_obj_get(f, "amount"@) == Some(f[1].1));
    assert(spec_obj_get(f, "description"@) == Some(f[2].1));
    assert(spec_obj_get(f, "internalId"@) == Some(f[3].1));
    assert(spec_obj_get(f, "callbackUrl"@) == Some(f[4].1));
}

} // verus!