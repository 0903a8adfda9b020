//! The cron expression and timeout of a method job, held field by field.
use vstd::prelude::*;
use crate::text::{
    join_spec, join_with, lemma_nat_decimal, lemma_parse_u64_decimal, lemma_split_join, nat_decimal,
    parse_u64, parse_u64_spec, split_on, split_spec, string_from_chars, views,
};

verus! {

/// A cron expression in seven fields (seconds, minutes, hour, day of month,
/// month, day of week, year) with a timeout in milliseconds.
#[derive(Debug, Clone)]
pub struct CronFrameExpr {
    seconds: String,
    minutes: String,
    hour: String,
    day_month: String,
    month: String,
    day_week: String,
    year: String,
    timeout: u64,
}

impl View for CronFrameExpr {
    /// The seven fields, in order, and the timeout.
    type V = (Seq<Seq<char>>, u64);

    closed spec fn view(&self) -> (Seq<Seq<char>>, u64) {
        (
            seq![
                self.seconds@,
                self.minutes@,
                self.hour@,
                self.day_month@,
                self.month@,
                self.day_week@,
                self.year@,
            ],
            self.timeout,
        )
    }
}

impl Default for CronFrameExpr {
    /// An expression whose seven fields are empty, with a timeout of 0.
    fn default() -> (r: Self)
        ensures
            r@ == (seq![Seq::<char>::empty(); 7], 0u64),
    {
        CronFrameExpr {
            seconds: String::new(),
            minutes: String::new(),
            hour: String::new(),
            day_month: String::new(),
            month: String::new(),
            day_week: String::new(),
            year: String::new(),
            timeout: 0,
        }
    }
}

/// Whether a line of text reads as an expression: at least eight
/// space-separated items, the eighth a 64-bit number.
pub open spec fn expr_text_accepts(item: Seq<char>) -> bool {
    let p = split_spec(item, ' ');
    p.len() >= 8 && parse_u64_spec(p[7]) is Some
}

/// The expression a line of text reads as: its first seven items are the
/// fields, the eighth the timeout.
pub open spec fn expr_from_text(item: Seq<char>) -> (Seq<Seq<char>>, u64) {
    let p = split_spec(item, ' ');
    (p.take(7), parse_u64_spec(p[7]).unwrap())
}

/// The line of text that holds an expression and its timeout.
pub open spec fn expr_line(e: (Seq<Seq<char>>, u64)) -> Seq<char> {
    join_spec(e.0, ' ') + seq![' '] + nat_decimal(e.1 as nat)
}

impl CronFrameExpr {
    /// Creates an expression from its seven fields and a timeout.
    pub fn new(s: &str, m: &str, h: &str, dm: &str, mth: &str, dw: &str, y: &str, t: u64) -> (r:
        Self)
        ensures
            r@ == (seq![s@, m@, h@, dm@, mth@, dw@, y@], t),
    {
        CronFrameExpr {
            seconds: s.to_owned(),
            minutes: m.to_owned(),
            hour: h.to_owned(),
            day_month: dm.to_owned(),
            month: mth.to_owned(),
            day_week: dw.to_owned(),
            year: y.to_owned(),
            timeout: t,
        }
    }

    /// The cron expression: the seven fields separated by spaces.
    pub fn expr(&self) -> (r: String)
        ensures
            r@ == join_spec(self@.0, ' '),
    {
        let mut parts: Vec<String> = Vec::new();
        parts.push(self.seconds.clone());
        parts.push(self.minutes.clone());
        parts.push(self.hour.clone());
        parts.push(self.day_month.clone());
        parts.push(self.month.clone());
        parts.push(self.day_week.clone());
        parts.push(self.year.clone());
        assert(views(parts@) =~= self@.0);
        let v = join_with(&parts, ' ');
        string_from_chars(&v)
    }

    /// The timeout in milliseconds.
    pub fn timeout(&self) -> (t: u64)
        ensures
            t == self@.1,
    {
        self.timeout
    }

    /// Reads an expression from a line of space-separated items: seven
    /// fields and a timeout.
    pub fn from(item: &str) -> (r: Self)
        requires
            expr_text_accepts(item@),
        ensures
            r@ == expr_from_text(item@),
    {
        let items = split_on(item, ' ');
        assert(views(items@)[7] == items@[7]@);
        let t = parse_u64(items[7].as_str()).unwrap();
        let r = CronFrameExpr {
            seconds: items[0].clone(),
            minutes: items[1].clone(),
            hour: items[2].clone(),
            day_month: items[3].clone(),
            month: items[4].clone(),
            day_week: items[5].clone(),
            year: items[6].clone(),
            timeout: t,
        };
        assert(r@.0 =~= views(items@).take(7)) by {
            assert(views(items@)[0] == items@[0]@);
            assert(views(items@)[1] == items@[1]@);
            assert(views(items@)[2] == items@[2]@);
            assert(views(items@)[3] == items@[3]@);
            assert(views(items@)[4] == items@[4]@);
            assert(views(items@)[5] == items@[5]@);
            assert(views(items@)[6] == items@[6]@);
        }
        r
    }

    /// Reads an expression from a line, or `None` where `from` would not accept it.
    pub fn try_from_text(item: &str) -> (r: Option<Self>)
        ensures
            r is Some <==> expr_text_accepts(item@),
            r matches Some(e) ==> e@ == expr_from_text(item@),
    {
        let items = split_on(item, ' ');
        if items.len() < 8 {
            return None;
        }
        assert(views(items@)[7] == items@[7]@);
        if parse_u64(items[7].as_str()).is_none() {
            return None;
        }
        Some(Self::from(item))
    }
}

/// The text of an expression followed by its timeout reads back as the same
/// expression, when no field holds a space.
pub proof fn lemma_expr_round_trip(e: CronFrameExpr)
    requires
        forall|i: int| 0 <= i < 7 ==> !(#[trigger] e@.0[i]).contains(' '),
    ensures
        expr_text_accepts(expr_line(e@)),
        expr_from_text(expr_line(e@)) == e@,
{
    let fields = e@.0;
    let dec = nat_decimal(e@.1 as nat);
    let parts = fields.push(dec);
    lemma_nat_decimal(e@.1 as nat);
    assert(!dec.contains(' ')) by {
        if dec.contains(' ') {
            let k = choose|k: int| 0 <= k < dec.len() && dec[k] == ' ';
            assert(crate::text::is_digit(dec[k]));
        }
    }
    assert forall|i: int| 0 <= i < parts.len() implies !(#[trigger] parts[i]).contains(' ') by {
        if i < 7 {
            assert(parts[i] == fields[i]);
        } else {
            assert(parts[i] == dec);
        }
    }
    assert(parts.drop_last() =~= fields);
    assert(join_spec(parts, ' ') == expr_line(e@));
    lemma_split_join(parts, ' ');
    lemma_parse_u64_decimal(e@.1);
    assert(parts.take(7) =~= fields);
}

} // verus!
