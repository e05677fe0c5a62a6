use vstd::prelude::*;
use crate::filters::sort_by_gdp_desc;
use crate::filters::sorted_desc;
use crate::filters::spec_sort_desc;
use crate::filters::lemma_sort_desc_sorted;
use crate::record::Country;

verus! {

/// The metadata row that accompanies the rendered summary artifact: one
/// logical row, fully replaced on every successful refresh.
pub struct CacheMetadata {
    pub file_path: String,
    pub total_countries: u64,
    pub top_countries_json: String,
    pub last_refreshed_at: String,
}

/// The decimal digits of `n`, most significant first.
pub open spec fn dec_str(n: nat) -> Seq<char>
    decreases n,
{
    if n < 10 {
        seq![digit_char(n)]
    } else {
        dec_str(n / 10) + seq![digit_char(n % 10)]
    }
}

/// The character for one decimal digit.
pub open spec fn digit_char(d: nat) -> char {
    if d == 0 {
        '0'
    } else if d == 1 {
        '1'
    } else if d == 2 {
        '2'
    } else if d == 3 {
        '3'
    } else if d == 4 {
        '4'
    } else if d == 5 {
        '5'
    } else if d == 6 {
        '6'
    } else if d == 7 {
        '7'
    } else if d == 8 {
        '8'
    } else {
        '9'
    }
}

/// One decimal digit, as text.
fn digit_str(d: u128) -> (r: &'static str)
    requires
        d < 10,
    ensures
        r@ == seq![digit_char(d as nat)],
{
    if d == 0 {
        proof {
            reveal_strlit("0");
            assert(("0")@ =~= seq!['0']);
        }
        "0"
    } else if d == 1 {
        proof {
            reveal_strlit("1");
            assert(("1")@ =~= seq!['1']);
        }
        "1"
    } else if d == 2 {
        proof {
            reveal_strlit("2");
            assert(("2")@ =~= seq!['2']);
        }
        "2"
    } else if d == 3 {
        proof {
            reveal_strlit("3");
            assert(("3")@ =~= seq!['3']);
        }
        "3"
    } else if d == 4 {
        proof {
            reveal_strlit("4");
            assert(("4")@ =~= seq!['4']);
        }
        "4"
    } else if d == 5 {
        proof {
            reveal_strlit("5");
            assert(("5")@ =~= seq!['5']);
        }
        "5"
    } else if d == 6 {
        proof {
            reveal_strlit("6");
            assert(("6")@ =~= seq!['6']);
        }
        "6"
    } else if d == 7 {
        proof {
            reveal_strlit("7");
            assert(("7")@ =~= seq!['7']);
        }
        "7"
    } else if d == 8 {
        proof {
            reveal_strlit("8");
            assert(("8")@ =~= seq!['8']);
        }
        "8"
    } else {
        proof {
            reveal_strlit("9");
            assert(("9")@ =~= seq!['9']);
        }
        "9"
    }
}

/// Writes `n` in decimal.
pub fn fmt_u128(n: u128) -> (r: String)
    ensures
        r@ == dec_str(n as nat),
    decreases n,
{
    if n < 10 {
        digit_str(n).to_owned()
    } else {
        let prefix = fmt_u128(n / 10);
        prefix.concat(digit_str(n % 10))
    }
}

/// A micro-unit quantity written with two decimal places, truncated.
pub open spec fn spec_fmt_micro(g: nat) -> Seq<char> {
    dec_str(g / 1_000_000) + seq!['.'] + seq![
        digit_char((g % 1_000_000) / 100_000),
        digit_char((g % 1_000_000) / 10_000 % 10),
    ]
}

/// Writes a micro-unit quantity with two decimal places, truncated.
pub fn fmt_micro(g: u128) -> (r: String)
    ensures
        r@ == spec_fmt_micro(g as nat),
{
    let whole = fmt_u128(g / 1_000_000);
    let frac = g % 1_000_000;
    proof {
        reveal_strlit(".");
        assert((".")@ =~= seq!['.']);
    }
    let with_dot = whole.concat(".");
    let with_tenths = with_dot.concat(digit_str(frac / 100_000));
    let r = with_tenths.concat(digit_str(frac / 10_000 % 10));
    proof {
        assert(r@ =~= spec_fmt_micro(g as nat));
    }
    r
}

/// The top records by estimated GDP: the first `n` of the stable descending
/// sort.
pub open spec fn spec_top_n(s: Seq<Country>, n: int) -> Seq<Country> {
    if spec_sort_desc(s).len() <= n {
        spec_sort_desc(s)
    } else {
        spec_sort_desc(s).subrange(0, n)
    }
}

/// The top records always number at most `n`, come in descending order, and a
/// record with an absent metric never stands above one with a present metric.
pub proof fn lemma_top_n_props(s: Seq<Country>, n: int)
    requires
        0 <= n,
    ensures
        spec_top_n(s, n).len() <= n,
        sorted_desc(spec_top_n(s, n)),
        forall|i: int, j: int|
            0 <= i < j < spec_top_n(s, n).len() && (
            #[trigger] spec_top_n(s, n)[i]).estimated_gdp is None ==> (
            #[trigger] spec_top_n(s, n)[j]).estimated_gdp is None,
{
    lemma_sort_desc_sorted(s);
}

/// One rendered artifact line for a top record: rank, name, metric with two
/// decimals (a missing name shows as `Unknown`, a missing metric as zero).
pub open spec fn spec_summary_line(rank: nat, c: Country) -> Seq<char> {
    dec_str(rank) + (". ")@ + (match c.name {
        Some(n) => n@,
        None => ("Unknown")@,
    }) + (" - ")@ + (match c.estimated_gdp {
        Some(g) => spec_fmt_micro(g as nat),
        None => spec_fmt_micro(0),
    })
}

/// One rendered artifact line for a top record.
pub fn summary_line(rank: usize, c: &Country) -> (r: String)
    ensures
        r@ == spec_summary_line(rank as nat, *c),
{
    let mut acc = fmt_u128(rank as u128);
    acc.append(". ");
    match &c.name {
        Some(n) => acc.append(n.as_str()),
        None => acc.append("Unknown"),
    }
    acc.append(" - ");
    match c.estimated_gdp {
        Some(g) => acc.append(fmt_micro(g).as_str()),
        None => acc.append(fmt_micro(0).as_str()),
    }
    proof {
        assert(acc@ =~= spec_summary_line(rank as nat, *c));
    }
    acc
}

/// The text of the summary artifact, top to bottom: a title, the total
/// count, a heading, one line per top record, and the cycle timestamp.
pub fn summary_image_lines(countries: &Vec<Country>, top: &Vec<Country>, timestamp: &String) -> (
    lines: Vec<String>)
    requires
        top@.len() <= 5,
    ensures
        lines@.len() == 4 + top@.len(),
        lines@[0]@ == ("Country Summary Report")@,
        lines@[1]@ == ("Total Countries: ")@ + dec_str(countries@.len() as nat),
        lines@[2]@ == ("Top 5 by Estimated GDP:")@,
        forall|k: int|
            0 <= k < top@.len() ==> (#[trigger] lines@[3 + k])@ == spec_summary_line(
                (k + 1) as nat,
                top@[k],
            ),
        lines@[lines@.len() - 1]@ == ("Last Refreshed: ")@ + timestamp@,
{
    let mut lines: Vec<String> = Vec::new();
    lines.push(("Country Summary Report").to_owned());
    let mut count_line = ("Total Countries: ").to_owned();
    count_line.append(fmt_u128(countries.len() as u128).as_str());
    lines.push(count_line);
    lines.push(("Top 5 by Estimated GDP:").to_owned());
    let mut k: usize = 0;
    while k < top.len()
        invariant
            k <= top@.len(),
            top@.len() <= 5,
            lines@.len() == 3 + k,
            lines@[0]@ == ("Country Summary Report")@,
            lines@[1]@ == ("Total Countries: ")@ + dec_str(countries@.len() as nat),
            lines@[2]@ == ("Top 5 by Estimated GDP:")@,
            forall|j: int|
                0 <= j < k ==> (#[trigger] lines@[3 + j])@ == spec_summary_line(
                    (j + 1) as nat,
                    top@[j],
                ),
        decreases top@.len() - k,
    {
        lines.push(summary_line(k + 1, &top[k]));
        k += 1;
    }
    let mut ts_line = ("Last Refreshed: ").to_owned();
    ts_line.append(timestamp.as_str());
    lines.push(ts_line);
    lines
}

/// Builds the metadata row for one refresh: the well-known artifact path, the
/// total record count at generation time, the JSON snapshot of the top-five
/// list, and the cycle timestamp.
pub fn build_summary_metadata(countries: &Vec<Country>, top: &Vec<Country>, timestamp: &String) -> (
    m: CacheMetadata)
    ensures
        m.file_path@ == ("cache/summary.png")@,
        m.total_countries == countries@.len(),
        m.top_countries_json@ == spec_snapshot_json(top@),
        m.last_refreshed_at@ == timestamp@,
{
    CacheMetadata {
        file_path: ("cache/summary.png").to_owned(),
        total_countries: countries.len() as u64,
        top_countries_json: snapshot_json(top),
        last_refreshed_at: timestamp.clone(),
    }
}

/// A name for what serde_json makes of a string: the JSON string literal,
/// quotes and escapes included; a function of the characters alone.
pub uninterp spec fn json_str_of(s: Seq<char>) -> Seq<char>;

/// Relies on serde_json::to_string for a string slice: the JSON string
/// literal for it, which depends on the characters alone (and which, for a
/// string slice, the serializer always produces).
#[verifier::external_body]
fn json_string(s: &str) -> (r: String)
    ensures
        r@ == json_str_of(s@),
{
    match serde_json::to_string(s) {
        Ok(t) => t,
        Err(_) => String::new(),
    }
}

/// An optional string as JSON: the escaped literal, or `null`.
pub open spec fn spec_json_opt_str(v: Option<String>) -> Seq<char> {
    match v {
        Some(s) => json_str_of(s@),
        None => ("null")@,
    }
}

/// An optional count as JSON: plain decimal, or `null`.
pub open spec fn spec_json_opt_u64(v: Option<u64>) -> Seq<char> {
    match v {
        Some(n) => dec_str(n as nat),
        None => ("null")@,
    }
}

/// An optional micro-unit quantity as JSON: two decimal places, or `null`.
pub open spec fn spec_json_opt_micro(v: Option<u128>) -> Seq<char> {
    match v {
        Some(g) => spec_fmt_micro(g as nat),
        None => ("null")@,
    }
}

/// The JSON fields shared by every serialized form of a record.
pub open spec fn spec_record_fields(c: Country) -> Seq<char> {
    ("\"name\":")@ + spec_json_opt_str(c.name) + (",\"capital\":")@ + spec_json_opt_str(c.capital)
        + (",\"region\":")@ + spec_json_opt_str(c.region) + (",\"population\":")@
        + spec_json_opt_u64(c.population) + (",\"currency_code\":")@ + (match c.spec_currency_code() {
        Some(code) => json_str_of(code),
        None => ("null")@,
    }) + (",\"exchange_rate\":")@ + (match c.exchange_rate {
        Some(r) => spec_fmt_micro(r as nat),
        None => ("null")@,
    }) + (",\"estimated_gdp\":")@ + spec_json_opt_micro(c.estimated_gdp) + (",\"flag_url\":")@
        + spec_json_opt_str(c.flag_url) + (",\"last_refreshed_at\":")@ + spec_json_opt_str(
        c.last_refreshed_at,
    )
}

/// One record as a JSON object.
pub open spec fn spec_record_json(c: Country) -> Seq<char> {
    ("{")@ + spec_record_fields(c) + ("}")@
}

/// The comma-separated JSON objects of the records, in order.
pub open spec fn spec_snapshot_items(s: Seq<Country>) -> Seq<char>
    decreases s.len(),
{
    if s.len() == 0 {
        Seq::<char>::empty()
    } else if s.len() == 1 {
        spec_record_json(s[0])
    } else {
        spec_snapshot_items(s.drop_last()) + seq![','] + spec_record_json(s.last())
    }
}

/// The records as a JSON array, in order.
pub open spec fn spec_snapshot_json(s: Seq<Country>) -> Seq<char> {
    seq!['['] + spec_snapshot_items(s) + seq![']']
}

/// An optional string as JSON text.
fn json_opt_string(v: &Option<String>) -> (r: String)
    ensures
        r@ == spec_json_opt_str(*v),
{
    match v {
        Some(s) => json_string(s.as_str()),
        None => ("null").to_owned(),
    }
}

/// The shared JSON fields of one record, as text.
fn record_fields_json(c: &Country) -> (r: String)
    ensures
        r@ == spec_record_fields(*c),
{
    let mut acc = ("\"name\":").to_owned();
    acc.append(json_opt_string(&c.name).as_str());
    acc.append(",\"capital\":");
    acc.append(json_opt_string(&c.capital).as_str());
    acc.append(",\"region\":");
    acc.append(json_opt_string(&c.region).as_str());
    acc.append(",\"population\":");
    match c.population {
        Some(n) => acc.append(fmt_u128(n as u128).as_str()),
        None => acc.append("null"),
    }
    acc.append(",\"currency_code\":");
    match c.get_currency_code() {
        Some(code) => acc.append(json_string(code.as_str()).as_str()),
        None => acc.append("null"),
    }
    acc.append(",\"exchange_rate\":");
    match c.exchange_rate {
        Some(rate) => acc.append(fmt_micro(rate as u128).as_str()),
        None => acc.append("null"),
    }
    acc.append(",\"estimated_gdp\":");
    match c.estimated_gdp {
        Some(g) => acc.append(fmt_micro(g).as_str()),
        None => acc.append("null"),
    }
    acc.append(",\"flag_url\":");
    acc.append(json_opt_string(&c.flag_url).as_str());
    acc.append(",\"last_refreshed_at\":");
    acc.append(json_opt_string(&c.last_refreshed_at).as_str());
    proof {
        assert(acc@ =~= spec_record_fields(*c));
    }
    acc
}

/// One record as a JSON object, as text.
pub fn record_json(c: &Country) -> (r: String)
    ensures
        r@ == spec_record_json(*c),
{
    let mut acc = ("{").to_owned();
    acc.append(record_fields_json(c).as_str());
    acc.append("}");
    proof {
        assert(acc@ =~= spec_record_json(*c));
    }
    acc
}

/// The snapshot of the given records as a JSON array, in order.
#[verifier::loop_isolation(false)]
pub fn snapshot_json(records: &Vec<Country>) -> (r: String)
    ensures
        r@ == spec_snapshot_json(records@),
{
    proof {
        reveal_strlit("[");
        reveal_strlit("]");
        reveal_strlit(",");
        assert(("[")@ =~= seq!['[']);
        assert(("]")@ =~= seq![']']);
        assert((",")@ =~= seq![',']);
    }
    let mut acc = ("[").to_owned();
    let mut i: usize = 0;
    while i < records.len()
        invariant
            i <= records@.len(),
            acc@ == seq!['['] + spec_snapshot_items(records@.subrange(0, i as int)),
        decreases records@.len() - i,
    {
        if i > 0 {
            acc.append(",");
        }
        acc.append(record_json(&records[i]).as_str());
        proof {
            let next = records@.subrange(0, i + 1 as int);
            assert(next.drop_last() =~= records@.subrange(0, i as int));
            assert(next.last() == records@[i as int]);
            assert(acc@ =~= seq!['['] + spec_snapshot_items(next));
        }
        i += 1;
    }
    acc.append("]");
    proof {
        assert(records@.subrange(0, records@.len() as int) =~= records@);
        assert(acc@ =~= spec_snapshot_json(records@));
    }
    acc
}

impl Country {
    /// The record as a JSON object carrying its one-based position, for the
    /// read-side listing.
    pub fn structure_country_for_return(&self, index: usize) -> (r: String)
        ensures
            r@ == ("{\"id\":")@ + dec_str(index as nat) + (",")@ + spec_record_fields(*self) + (
            "}")@,
    {
        let mut acc = ("{\"id\":").to_owned();
        acc.append(fmt_u128(index as u128).as_str());
        acc.append(",");
        acc.append(record_fields_json(self).as_str());
        acc.append("}");
        proof {
            assert(acc@ =~= ("{\"id\":")@ + dec_str(index as nat) + (",")@ + spec_record_fields(
                *self,
            ) + ("}")@);
        }
        acc
    }
}

/// Selects the at-most-five records that the artifact shows, ordered by
/// estimated GDP descending, absent metrics last.
pub fn top_countries_by_gdp(countries: Vec<Country>) -> (top: Vec<Country>)
    ensures
        top@ == spec_top_n(countries@, 5),
        top@.len() <= 5,
        sorted_desc(top@),
{
    proof {
        lemma_top_n_props(countries@, 5);
    }
    let mut sorted = sort_by_gdp_desc(countries);
    if sorted.len() > 5 {
        sorted.truncate(5);
    }
    proof {
        if spec_sort_desc(countries@).len() > 5 {
        } else {
            assert(sorted@ =~= spec_top_n(countries@, 5));
        }
    }
    sorted
}

} // verus!
