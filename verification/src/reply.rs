//! Replies: named values, ready to be written as JSON objects.
use crate::amount::Amount;
use vstd::prelude::*;

verus! {

/// A value in a reply.
#[derive(Debug)]
pub enum Scalar {
    Flag(bool),
    Unsigned(u64),
    Signed(i64),
    Coins(Amount),
    Text(String),
}

/// What a value is.
pub enum ScalarView {
    Flag(bool),
    Unsigned(u64),
    Signed(i64),
    Coins(Amount),
    Text(Seq<char>),
}

impl View for Scalar {
    type V = ScalarView;

    open spec fn view(&self) -> ScalarView {
        match self {
            Scalar::Flag(b) => ScalarView::Flag(*b),
            Scalar::Unsigned(n) => ScalarView::Unsigned(*n),
            Scalar::Signed(i) => ScalarView::Signed(*i),
            Scalar::Coins(a) => ScalarView::Coins(*a),
            Scalar::Text(t) => ScalarView::Text(t@),
        }
    }
}

/// Named values.
#[derive(Debug)]
pub struct Record {
    pub fields: Vec<(String, Scalar)>,
}

/// What a record holds: names and values, in order.
pub type RecordView = Seq<(Seq<char>, ScalarView)>;

impl View for Record {
    type V = RecordView;

    open spec fn view(&self) -> RecordView {
        self.fields@.map_values(|f: (String, Scalar)| (f.0@, f.1@))
    }
}

impl Record {
    /// A record without values.
    pub fn new() -> (r: Record)
        ensures
            r@ == RecordView::empty(),
    {
        let r = Record { fields: Vec::new() };
        assert(r@ =~= RecordView::empty());
        r
    }

    /// The record with one more value.
    pub fn with(self, name: &str, value: Scalar) -> (r: Record)
        ensures
            r@ == self@.push((name@, value@)),
    {
        let mut fields = self.fields;
        fields.push((name.to_owned(), value));
        let r = Record { fields };
        assert(r@ =~= self@.push((name@, value@)));
        r
    }
}

/// What stands under a name in a reply: one value, or a list of records.
#[derive(Debug)]
pub enum Item {
    One(Scalar),
    Many(Vec<Record>),
}

/// What an item is.
pub enum ItemView {
    One(ScalarView),
    Many(Seq<RecordView>),
}

impl View for Item {
    type V = ItemView;

    open spec fn view(&self) -> ItemView {
        match self {
            Item::One(s) => ItemView::One(s@),
            Item::Many(rows) => ItemView::Many(records(rows@)),
        }
    }
}

/// What a list of records holds.
pub open spec fn records(rows: Seq<Record>) -> Seq<RecordView> {
    rows.map_values(|r: Record| r@)
}

/// A reply.
#[derive(Debug)]
pub struct Reply {
    pub fields: Vec<(String, Item)>,
}

/// What a reply holds: names and items, in order.
pub type ReplyView = Seq<(Seq<char>, ItemView)>;

impl View for Reply {
    type V = ReplyView;

    open spec fn view(&self) -> ReplyView {
        self.fields@.map_values(|f: (String, Item)| (f.0@, f.1@))
    }
}

impl Reply {
    /// A reply without items.
    pub fn new() -> (r: Reply)
        ensures
            r@ == ReplyView::empty(),
    {
        let r = Reply { fields: Vec::new() };
        assert(r@ =~= ReplyView::empty());
        r
    }

    fn with_item(self, name: &str, item: Item) -> (r: Reply)
        ensures
            r@ == self@.push((name@, item@)),
    {
        let mut fields = self.fields;
        fields.push((name.to_owned(), item));
        let r = Reply { fields };
        assert(r@ =~= self@.push((name@, item@)));
        r
    }

    /// The reply with one more flag.
    pub fn with_flag(self, name: &str, flag: bool) -> (r: Reply)
        ensures
            r@ == self@.push((name@, ItemView::One(ScalarView::Flag(flag)))),
    {
        self.with_item(name, Item::One(Scalar::Flag(flag)))
    }

    /// The reply with one more number that is not negative.
    pub fn with_unsigned(self, name: &str, n: u64) -> (r: Reply)
        ensures
            r@ == self@.push((name@, ItemView::One(ScalarView::Unsigned(n)))),
    {
        self.with_item(name, Item::One(Scalar::Unsigned(n)))
    }

    /// The reply with one more number.
    pub fn with_signed(self, name: &str, i: i64) -> (r: Reply)
        ensures
            r@ == self@.push((name@, ItemView::One(ScalarView::Signed(i)))),
    {
        self.with_item(name, Item::One(Scalar::Signed(i)))
    }

    /// The reply with one more amount.
    pub fn with_coins(self, name: &str, a: Amount) -> (r: Reply)
        ensures
            r@ == self@.push((name@, ItemView::One(ScalarView::Coins(a)))),
    {
        self.with_item(name, Item::One(Scalar::Coins(a)))
    }

    /// The reply with one more text.
    pub fn with_text(self, name: &str, text: &str) -> (r: Reply)
        ensures
            r@ == self@.push((name@, ItemView::One(ScalarView::Text(text@)))),
    {
        self.with_item(name, Item::One(Scalar::Text(text.to_owned())))
    }

    /// The reply with one more list.
    pub fn with_list(self, name: &str, rows: Vec<Record>) -> (r: Reply)
        ensures
            r@ == self@.push((name@, ItemView::Many(records(rows@)))),
    {
        self.with_item(name, Item::Many(rows))
    }
}

/// What a reply holds is what its fields hold, each name and each value as it is.
pub proof fn law_reply_is_its_fields(r: Reply, i: int)
    requires
        0 <= i < r.fields@.len(),
    ensures
        r@.len() == r.fields@.len(),
        r@[i].0 == r.fields@[i].0@,
        match r.fields@[i].1 {
            Item::One(Scalar::Flag(b)) => r@[i].1 == ItemView::One(ScalarView::Flag(b)),
            Item::One(Scalar::Unsigned(n)) => r@[i].1 == ItemView::One(ScalarView::Unsigned(n)),
            Item::One(Scalar::Signed(n)) => r@[i].1 == ItemView::One(ScalarView::Signed(n)),
            Item::One(Scalar::Coins(a)) => r@[i].1 == ItemView::One(ScalarView::Coins(a)),
            Item::One(Scalar::Text(t)) => r@[i].1 == ItemView::One(ScalarView::Text(t@)),
            Item::Many(rows) => r@[i].1 is Many && r@[i].1->Many_0.len() == rows@.len() && forall|
                k: int,
            |
                0 <= k < rows@.len() ==> #[trigger] r@[i].1->Many_0[k] == rows@[k]@,
        },
{
}

/// What a record holds is what its fields hold, each name and each value as it is.
pub proof fn law_record_is_its_fields(r: Record, i: int)
    requires
        0 <= i < r.fields@.len(),
    ensures
        r@.len() == r.fields@.len(),
        r@[i].0 == r.fields@[i].0@,
        match r.fields@[i].1 {
            Scalar::Flag(b) => r@[i].1 == ScalarView::Flag(b),
            Scalar::Unsigned(n) => r@[i].1 == ScalarView::Unsigned(n),
            Scalar::Signed(n) => r@[i].1 == ScalarView::Signed(n),
            Scalar::Coins(a) => r@[i].1 == ScalarView::Coins(a),
            Scalar::Text(t) => r@[i].1 == ScalarView::Text(t@),
        },
{
}

/// A reply that takes one more value keeps those that it has, in their places, and has the
/// new one last, under its name.
pub proof fn law_reply_grows(
    r: Reply,
    name: &str,
    b: bool,
    flag: Reply,
    n: u64,
    unsigned: Reply,
    i: i64,
    signed: Reply,
    a: Amount,
    coins: Reply,
    t: &str,
    text: Reply,
    rows: Vec<Record>,
    list: Reply,
    more: Reply,
)
    requires
        call_ensures(Reply::with_flag, (r, name, b), flag),
        call_ensures(Reply::with_unsigned, (r, name, n), unsigned),
        call_ensures(Reply::with_signed, (r, name, i), signed),
        call_ensures(Reply::with_coins, (r, name, a), coins),
        call_ensures(Reply::with_text, (r, name, t), text),
        call_ensures(Reply::with_list, (r, name, rows), list),
        more == flag || more == unsigned || more == signed || more == coins || more == text || more
            == list,
    ensures
        more@.len() == r@.len() + 1,
        more@.drop_last() == r@,
        more@.last().0 == name@,
        flag@.last().1 == ItemView::One(ScalarView::Flag(b)),
        unsigned@.last().1 == ItemView::One(ScalarView::Unsigned(n)),
        signed@.last().1 == ItemView::One(ScalarView::Signed(i)),
        coins@.last().1 == ItemView::One(ScalarView::Coins(a)),
        text@.last().1 == ItemView::One(ScalarView::Text(t@)),
        list@.last().1 is Many,
        list@.last().1->Many_0.len() == rows@.len(),
        forall|k: int| 0 <= k < rows@.len() ==> #[trigger] list@.last().1->Many_0[k] == rows@[k]@,
{
}

/// A new reply and a new record hold nothing, and a record that takes one more value keeps
/// those that it has and has the new one last, under its name.
pub proof fn law_record_grows(
    empty_reply: Reply,
    empty: Record,
    r: Record,
    name: &str,
    value: Scalar,
    more: Record,
)
    requires
        call_ensures(Reply::new, (), empty_reply),
        call_ensures(Record::new, (), empty),
        call_ensures(Record::with, (r, name, value), more),
    ensures
        empty_reply@.len() == 0,
        empty@.len() == 0,
        more@.len() == r@.len() + 1,
        more@.drop_last() == r@,
        more@.last() == (name@, value@),
{
}

} // verus!
