//! The payment request builder and the payment wrapper.
//!
//! A builder accumulates the required fields (amount, payer email,
//! authentication key) and any optional fields the caller sets, and renders
//! them into a compact JSON object: every field that is set appears under
//! its wire name, every field left unset is fully omitted — never emitted as
//! null. `spec_json` states the exact character sequence of that payload.

use vstd::prelude::*;

use crate::amount::dec_digits;
use crate::amount::push_char;
use crate::amount::Amount;
use crate::channels::MobileMoney;
use crate::cred::expose_secret;
use crate::cred::secret_chars;
use crate::cred::SecretString;
use crate::jsontext::quote_string;
use crate::jsontext::quoted;

verus! {

/// Supported currencies.
#[derive(Clone, Copy, Debug, PartialEq, Eq, Structural)]
pub enum Currency {
    /// Nigerian Naira
    NGN,
    /// US Dollars
    USD,
    /// Ghanaian Cedis
    GHS,
    /// South African Rand
    ZAR,
    /// Kenyan Shillings
    KES,
}

/// Available payment channels. At most one instrument may be selected per
/// request; absent means the processor chooses.
#[derive(Clone, Debug)]
pub enum Channel {
    Card,
    Bank,
    USSD,
    QR,
    MobileMoney(MobileMoney),
    BankTransfer,
    Eft,
}

/// The wire name of a currency.
pub open spec fn currency_chars(c: Currency) -> Seq<char> {
    match c {
        Currency::NGN => "NGN"@,
        Currency::USD => "USD"@,
        Currency::GHS => "GHS"@,
        Currency::ZAR => "ZAR"@,
        Currency::KES => "KES"@,
    }
}

/// The wire name of a channel that carries no data of its own. A mobile
/// money channel never renders under the "channel" key (it serializes as a
/// nested object of its own), so its arm is never reached by the payload.
pub open spec fn channel_chars(c: Channel) -> Seq<char> {
    match c {
        Channel::Card => "Card"@,
        Channel::Bank => "Bank"@,
        Channel::USSD => "USSD"@,
        Channel::QR => "QR"@,
        Channel::MobileMoney(_) => Seq::<char>::empty(),
        Channel::BankTransfer => "BankTransfer"@,
        Channel::Eft => "Eft"@,
    }
}

/// Building blocks for initiating a Paystack payment.
#[derive(Debug)]
pub struct PaymentBuilder {
    // Required data
    /// Amount in the subunit of the supported currency to debit.
    pub amount: Amount,
    /// The payer's email address.
    pub email: String,
    /// The authentication key, exposed out of its secrecy wrapper at the
    /// moment the builder is made.
    pub key: String,
    // Optional data
    /// The selected payment instrument, if any.
    pub channel: Option<Channel>,
    /// The currency the charge is performed in, if chosen.
    pub currency: Option<Currency>,
    /// A string replacing the customer email on the checkout form.
    pub label: Option<String>,
    /// Extra information recorded with the transaction.
    pub metadata: Option<String>,
    /// A unique transaction reference.
    pub reference: Option<String>,
}

/// One serialized member of a JSON object: the quoted wire key, a colon and
/// the rendered value.
pub open spec fn member_chars(m: (Seq<char>, Seq<char>)) -> Seq<char> {
    seq!['"'] + m.0 + seq!['"', ':'] + m.1
}

/// Members joined with commas.
pub open spec fn render_members(ms: Seq<(Seq<char>, Seq<char>)>) -> Seq<char>
    decreases ms.len(),
{
    if ms.len() == 0 {
        Seq::<char>::empty()
    } else if ms.len() == 1 {
        member_chars(ms[0])
    } else {
        render_members(ms.drop_last()) + seq![','] + member_chars(ms.last())
    }
}

/// The nested object a mobile money channel serializes as.
pub open spec fn mobile_money_chars(m: MobileMoney) -> Seq<char> {
    seq!['{'] + member_chars(("phone"@, quoted(m.phone@))) + seq![','] + member_chars(
        ("provider"@, quoted(m.provider@)),
    ) + seq!['}']
}

/// The "channel" member: present exactly when a channel without data of its
/// own is selected.
pub open spec fn channel_member(c: Option<Channel>) -> Seq<(Seq<char>, Seq<char>)> {
    match c {
        Some(Channel::MobileMoney(_)) => Seq::<(Seq<char>, Seq<char>)>::empty(),
        Some(ch) => seq![("channel"@, seq!['"'] + channel_chars(ch) + seq!['"'])],
        None => Seq::<(Seq<char>, Seq<char>)>::empty(),
    }
}

/// The "currency" member: present exactly when a currency is chosen.
pub open spec fn currency_member(c: Option<Currency>) -> Seq<(Seq<char>, Seq<char>)> {
    match c {
        Some(cur) => seq![("currency"@, seq!['"'] + currency_chars(cur) + seq!['"'])],
        None => Seq::<(Seq<char>, Seq<char>)>::empty(),
    }
}

/// An optional free-form string member: present exactly when set.
pub open spec fn opt_member(key: Seq<char>, v: Option<String>) -> Seq<(Seq<char>, Seq<char>)> {
    match v {
        Some(s) => seq![(key, quoted(s@))],
        None => Seq::<(Seq<char>, Seq<char>)>::empty(),
    }
}

/// The "mobile_money" member: present exactly when the mobile money channel
/// is selected.
pub open spec fn mobile_member(c: Option<Channel>) -> Seq<(Seq<char>, Seq<char>)> {
    match c {
        Some(Channel::MobileMoney(m)) => seq![("mobile_money"@, mobile_money_chars(m))],
        _ => Seq::<(Seq<char>, Seq<char>)>::empty(),
    }
}

/// All members of the serialized payload in wire order (keys sorted): the
/// required fields and exactly the optional fields that are set.
pub open spec fn spec_members(b: PaymentBuilder) -> Seq<(Seq<char>, Seq<char>)> {
    seq![("amount"@, b.amount.spec_chars())] + channel_member(b.channel) + currency_member(
        b.currency,
    ) + seq![("email"@, quoted(b.email@))] + seq![("key"@, quoted(b.key@))] + opt_member(
        "label"@,
        b.label,
    ) + opt_member("metadata"@, b.metadata) + mobile_member(b.channel) + opt_member(
        "reference"@,
        b.reference,
    )
}

/// The full serialized payload.
pub open spec fn spec_json(b: PaymentBuilder) -> Seq<char> {
    seq!['{'] + render_members(spec_members(b)) + seq!['}']
}

impl PaymentBuilder {
    /// A builder is well formed when its amount is.
    pub open spec fn wf(self) -> bool {
        self.amount.wf()
    }

    /// Initiate your `PaymentBuilder`, taking in the basic requirements as
    /// arguments. The key can be derived from the application's credential
    /// source; it is unwrapped here, at its single point of use.
    pub fn init_payment(email: String, amount: Amount, key: SecretString) -> (b: PaymentBuilder)
        requires
            amount.wf(),
        ensures
            b.amount == amount,
            b.email == email,
            b.key@ == secret_chars(key),
            b.channel is None,
            b.currency is None,
            b.label is None,
            b.metadata is None,
            b.reference is None,
            b.wf(),
    {
        PaymentBuilder {
            amount,
            email,
            key: expose_secret(key),
            channel: None,
            currency: None,
            label: None,
            metadata: None,
            reference: None,
        }
    }

    /// Create your `Payment`, ready to initiate the Paystack payment.
    pub fn build(self) -> (p: Payment)
        ensures
            p.0 == self,
    {
        Payment(self)
    }

    /// Amount in the subunit of the supported currency to debit.
    pub fn amount(&self) -> (a: Amount)
        ensures
            a == self.amount,
    {
        self.amount
    }

    /// Select the payment channel to make available to the user. Exclusive:
    /// it replaces any channel selected before, since only one instrument
    /// may be selected per request.
    pub fn channel(&mut self, channel: Channel)
        ensures
            *final(self) == (PaymentBuilder { channel: Some(channel), ..*old(self) }),
    {
        self.channel = Some(channel);
    }

    /// One of the supported currencies the charge is performed in. Defaults
    /// to your integration currency when left unset.
    pub fn currency(&mut self, currency: Currency)
        ensures
            *final(self) == (PaymentBuilder { currency: Some(currency), ..*old(self) }),
    {
        self.currency = Some(currency);
    }

    /// Extra information to record with the transaction.
    pub fn metadata(&mut self, metadata: String)
        ensures
            *final(self) == (PaymentBuilder { metadata: Some(metadata), ..*old(self) }),
    {
        self.metadata = Some(metadata);
    }

    /// A string that replaces the customer email as shown on the checkout
    /// form.
    pub fn label(&mut self, label: String)
        ensures
            *final(self) == (PaymentBuilder { label: Some(label), ..*old(self) }),
    {
        self.label = Some(label);
    }

    /// Unique case sensitive transaction reference, restricted to `-`, `.`,
    /// `=` and alphanumeric characters by the remote service. When left
    /// unset, Paystack generates one.
    pub fn reference(&mut self, reference: String)
        ensures
            *final(self) == (PaymentBuilder { reference: Some(reference), ..*old(self) }),
    {
        self.reference = Some(reference);
    }

    /// Select the mobile money channel with its data; replaces any channel
    /// selected before.
    pub fn mobile_money(&mut self, mobile_money: MobileMoney)
        ensures
            *final(self) == (PaymentBuilder {
                channel: Some(Channel::MobileMoney(mobile_money)),
                ..*old(self)
            }),
    {
        self.channel = Some(Channel::MobileMoney(mobile_money));
    }

    /// Select the card channel; replaces any channel selected before.
    pub fn card(&mut self, _card: crate::channels::Card)
        ensures
            *final(self) == (PaymentBuilder { channel: Some(Channel::Card), ..*old(self) }),
    {
        self.channel = Some(Channel::Card);
    }

    /// Select the bank channel; replaces any channel selected before.
    pub fn bank(&mut self, _bank: crate::channels::Bank)
        ensures
            *final(self) == (PaymentBuilder { channel: Some(Channel::Bank), ..*old(self) }),
    {
        self.channel = Some(Channel::Bank);
    }

    /// Select the bank transfer channel; replaces any channel selected
    /// before.
    pub fn bank_transfer(&mut self, _bank_transfer: crate::channels::BankTransfer)
        ensures
            *final(self) == (PaymentBuilder {
                channel: Some(Channel::BankTransfer),
                ..*old(self)
            }),
    {
        self.channel = Some(Channel::BankTransfer);
    }

    /// Select the USSD channel; replaces any channel selected before.
    pub fn ussd(&mut self, _ussd: crate::channels::Ussd)
        ensures
            *final(self) == (PaymentBuilder { channel: Some(Channel::USSD), ..*old(self) }),
    {
        self.channel = Some(Channel::USSD);
    }

    /// Select the QR channel; replaces any channel selected before.
    pub fn qr(&mut self, _qr: crate::channels::QR)
        ensures
            *final(self) == (PaymentBuilder { channel: Some(Channel::QR), ..*old(self) }),
    {
        self.channel = Some(Channel::QR);
    }

    /// Serialize the request into its wire payload: every field that is set
    /// appears under its wire name, every unset optional field is fully
    /// omitted.
    #[verifier::rlimit(50)]
    pub fn json_builder(&self) -> (s: String)
        requires
            self.wf(),
        ensures
            s@ == spec_json(*self),
    {
        let mut out = String::new();
        push_char(&mut out, '{');
        let amount_str = self.amount.render();
        push_member(&mut out, "amount", amount_str.as_str(), true);
        let ghost mut acc: Seq<char> = seq!['{'] + member_chars(
            ("amount"@, self.amount.spec_chars()),
        );
        proof {
            assert(out@ =~= acc);
        }

        append_channel(&mut out, &self.channel);
        proof {
            acc = acc + render_tail(channel_member(self.channel));
            assert(out@ == acc);
        }

        append_currency(&mut out, &self.currency);
        proof {
            acc = acc + render_tail(currency_member(self.currency));
            assert(out@ == acc);
        }

        let email_val = quote_string(self.email.as_str());
        push_member(&mut out, "email", email_val.as_str(), false);
        proof {
            let m = ("email"@, quoted(self.email@));
            lemma_render_tail_single(m);
            acc = acc + render_tail(seq![m]);
            assert(out@ =~= acc);
        }

        let key_val = quote_string(self.key.as_str());
        push_member(&mut out, "key", key_val.as_str(), false);
        proof {
            let m = ("key"@, quoted(self.key@));
            lemma_render_tail_single(m);
            acc = acc + render_tail(seq![m]);
            assert(out@ =~= acc);
        }

        append_opt(&mut out, "label", &self.label);
        proof {
            acc = acc + render_tail(opt_member("label"@, self.label));
            assert(out@ == acc);
        }

        append_opt(&mut out, "metadata", &self.metadata);
        proof {
            acc = acc + render_tail(opt_member("metadata"@, self.metadata));
            assert(out@ == acc);
        }

        append_mobile(&mut out, &self.channel);
        proof {
            acc = acc + render_tail(mobile_member(self.channel));
            assert(out@ == acc);
        }

        append_opt(&mut out, "reference", &self.reference);
        proof {
            acc = acc + render_tail(opt_member("reference"@, self.reference));
            assert(out@ == acc);
        }

        push_char(&mut out, '}');
        proof {
            lemma_json_pieces(*self);
            let br = seq!['{'];
            let m0 = member_chars(("amount"@, self.amount.spec_chars()));
            let t1 = render_tail(channel_member(self.channel));
            let t2 = render_tail(currency_member(self.currency));
            let t3 = render_tail(seq![("email"@, quoted(self.email@))]);
            let t4 = render_tail(seq![("key"@, quoted(self.key@))]);
            let t5 = render_tail(opt_member("label"@, self.label));
            let t6 = render_tail(opt_member("metadata"@, self.metadata));
            let t7 = render_tail(mobile_member(self.channel));
            let t8 = render_tail(opt_member("reference"@, self.reference));
            let j1 = m0 + t1;
            assert((br + m0) + t1 =~= br + j1);
            let j2 = j1 + t2;
            assert((br + j1) + t2 =~= br + j2);
            let j3 = j2 + t3;
            assert((br + j2) + t3 =~= br + j3);
            let j4 = j3 + t4;
            assert((br + j3) + t4 =~= br + j4);
            let j5 = j4 + t5;
            assert((br + j4) + t5 =~= br + j5);
            let j6 = j5 + t6;
            assert((br + j5) + t6 =~= br + j6);
            let j7 = j6 + t7;
            assert((br + j6) + t7 =~= br + j7);
            let j8 = j7 + t8;
            assert((br + j7) + t8 =~= br + j8);
            assert(j8 == json_pieces(*self));
            assert(out@ == (br + j8) + seq!['}']);
            assert(out@ == spec_json(*self));
        }
        out
    }
}

/// The rendering of members that follow at least one earlier member: each
/// is preceded by a comma.
pub open spec fn render_tail(ms: Seq<(Seq<char>, Seq<char>)>) -> Seq<char>
    decreases ms.len(),
{
    if ms.len() == 0 {
        Seq::<char>::empty()
    } else {
        render_tail(ms.drop_last()) + seq![','] + member_chars(ms.last())
    }
}

/// The payload body split piece by piece: the amount member first, then the
/// comma-led tail of every later section.
pub open spec fn json_pieces(b: PaymentBuilder) -> Seq<char> {
    member_chars(("amount"@, b.amount.spec_chars())) + render_tail(channel_member(b.channel))
        + render_tail(currency_member(b.currency)) + render_tail(
        seq![("email"@, quoted(b.email@))],
    ) + render_tail(seq![("key"@, quoted(b.key@))]) + render_tail(opt_member("label"@, b.label))
        + render_tail(opt_member("metadata"@, b.metadata)) + render_tail(mobile_member(b.channel))
        + render_tail(opt_member("reference"@, b.reference))
}

/// Splitting an object body behind a nonempty prefix: the members after the
/// prefix render as their comma-led tail.
proof fn lemma_render_concat(a: Seq<(Seq<char>, Seq<char>)>, b: Seq<(Seq<char>, Seq<char>)>)
    requires
        a.len() >= 1,
    ensures
        render_members(a + b) == render_members(a) + render_tail(b),
    decreases b.len(),
{
    if b.len() == 0 {
        assert(a + b =~= a);
        assert(render_members(a) + render_tail(b) =~= render_members(a));
    } else {
        lemma_render_concat(a, b.drop_last());
        assert((a + b).drop_last() =~= a + b.drop_last());
        assert((a + b).last() == b.last());
        assert(render_members(a + b) =~= render_members(a) + render_tail(b));
    }
}

/// A single member in tail position renders as a comma and its characters.
proof fn lemma_render_tail_single(m: (Seq<char>, Seq<char>))
    ensures
        render_tail(seq![m]) == seq![','] + member_chars(m),
{
    let e = Seq::<(Seq<char>, Seq<char>)>::empty();
    assert(seq![m].drop_last() =~= e);
    assert(render_tail(e) == Seq::<char>::empty());
    assert(seq![m].last() == m);
    assert(render_tail(seq![m]) =~= seq![','] + member_chars(m));
}

/// The whole object body equals its piecewise rendering.
proof fn lemma_json_pieces(b: PaymentBuilder)
    ensures
        render_members(spec_members(b)) == json_pieces(b),
{
    let p0 = seq![("amount"@, b.amount.spec_chars())];
    let p1 = channel_member(b.channel);
    let p2 = currency_member(b.currency);
    let p3 = seq![("email"@, quoted(b.email@))];
    let p4 = seq![("key"@, quoted(b.key@))];
    let p5 = opt_member("label"@, b.label);
    let p6 = opt_member("metadata"@, b.metadata);
    let p7 = mobile_member(b.channel);
    let p8 = opt_member("reference"@, b.reference);
    lemma_render_concat(p0, p1);
    lemma_render_concat(p0 + p1, p2);
    lemma_render_concat(p0 + p1 + p2, p3);
    lemma_render_concat(p0 + p1 + p2 + p3, p4);
    lemma_render_concat(p0 + p1 + p2 + p3 + p4, p5);
    lemma_render_concat(p0 + p1 + p2 + p3 + p4 + p5, p6);
    lemma_render_concat(p0 + p1 + p2 + p3 + p4 + p5 + p6, p7);
    lemma_render_concat(p0 + p1 + p2 + p3 + p4 + p5 + p6 + p7, p8);
    assert(render_members(p0) == member_chars(p0[0]));
    assert(render_members(spec_members(b)) =~= json_pieces(b));
}

/// Append the "channel" member when a channel without data of its own is
/// selected; a mobile money channel or no channel appends nothing here.
fn append_channel(out: &mut String, channel: &Option<Channel>)
    ensures
        final(out)@ == old(out)@ + render_tail(channel_member(*channel)),
{
    match channel {
        Some(Channel::MobileMoney(_)) => {
            proof {
                assert(old(out)@ + render_tail(channel_member(*channel)) =~= out@);
            }
        },
        Some(ch) => {
            let name = channel_name(ch);
            let quoted_name = quote_plain(name);
            push_member(out, "channel", quoted_name.as_str(), false);
            proof {
                let m = ("channel"@, seq!['"'] + channel_chars(*ch) + seq!['"']);
                assert(channel_member(*channel) =~= seq![m]);
                lemma_render_tail_single(m);
                assert(out@ =~= old(out)@ + render_tail(channel_member(*channel)));
            }
        },
        None => {
            proof {
                assert(old(out)@ + render_tail(channel_member(*channel)) =~= out@);
            }
        },
    }
}

/// Append the "currency" member when a currency is chosen.
fn append_currency(out: &mut String, currency: &Option<Currency>)
    ensures
        final(out)@ == old(out)@ + render_tail(currency_member(*currency)),
{
    match currency {
        Some(cur) => {
            let name = currency_name(cur);
            let quoted_name = quote_plain(name);
            push_member(out, "currency", quoted_name.as_str(), false);
            proof {
                let m = ("currency"@, seq!['"'] + currency_chars(*cur) + seq!['"']);
                assert(currency_member(*currency) =~= seq![m]);
                lemma_render_tail_single(m);
                assert(out@ =~= old(out)@ + render_tail(currency_member(*currency)));
            }
        },
        None => {
            proof {
                assert(old(out)@ + render_tail(currency_member(*currency)) =~= out@);
            }
        },
    }
}

/// Append an optional free-form string member when it is set.
fn append_opt(out: &mut String, key: &str, v: &Option<String>)
    ensures
        final(out)@ == old(out)@ + render_tail(opt_member(key@, *v)),
{
    match v {
        Some(s) => {
            let val = quote_string(s.as_str());
            push_member(out, key, val.as_str(), false);
            proof {
                let m = (key@, quoted(s@));
                assert(opt_member(key@, *v) =~= seq![m]);
                lemma_render_tail_single(m);
                assert(out@ =~= old(out)@ + render_tail(opt_member(key@, *v)));
            }
        },
        None => {
            proof {
                assert(old(out)@ + render_tail(opt_member(key@, *v)) =~= out@);
            }
        },
    }
}

/// Append the "mobile_money" member when the mobile money channel is
/// selected.
fn append_mobile(out: &mut String, channel: &Option<Channel>)
    ensures
        final(out)@ == old(out)@ + render_tail(mobile_member(*channel)),
{
    match channel {
        Some(Channel::MobileMoney(m)) => {
            let val = mobile_money_value(m);
            push_member(out, "mobile_money", val.as_str(), false);
            proof {
                let mem = ("mobile_money"@, mobile_money_chars(*m));
                assert(mobile_member(*channel) =~= seq![mem]);
                lemma_render_tail_single(mem);
                assert(out@ =~= old(out)@ + render_tail(mobile_member(*channel)));
            }
        },
        _ => {
            proof {
                assert(old(out)@ + render_tail(mobile_member(*channel)) =~= out@);
            }
        },
    }
}

/// Append one member to the object under construction, preceded by a comma
/// unless it is the first. The key is a plain wire name that needs no
/// escaping.
fn push_member(out: &mut String, key: &str, value: &str, first: bool)
    ensures
        final(out)@ == old(out)@ + (if first {
            Seq::<char>::empty()
        } else {
            seq![',']
        }) + member_chars((key@, value@)),
{
    if !first {
        push_char(out, ',');
    }
    push_char(out, '"');
    out.append(key);
    push_char(out, '"');
    push_char(out, ':');
    out.append(value);
    proof {
        assert(out@ =~= old(out)@ + (if first {
            Seq::<char>::empty()
        } else {
            seq![',']
        }) + member_chars((key@, value@)));
    }
}

/// The wire name of a channel without data of its own, as a string slice.
fn channel_name(c: &Channel) -> (s: &'static str)
    requires
        !(c matches Channel::MobileMoney(_)),
    ensures
        s@ == channel_chars(*c),
{
    match c {
        Channel::Card => "Card",
        Channel::Bank => "Bank",
        Channel::USSD => "USSD",
        Channel::QR => "QR",
        Channel::MobileMoney(_) => "",
        Channel::BankTransfer => "BankTransfer",
        Channel::Eft => "Eft",
    }
}

/// The wire name of a currency, as a string slice.
fn currency_name(c: &Currency) -> (s: &'static str)
    ensures
        s@ == currency_chars(*c),
{
    match c {
        Currency::NGN => "NGN",
        Currency::USD => "USD",
        Currency::GHS => "GHS",
        Currency::ZAR => "ZAR",
        Currency::KES => "KES",
    }
}

/// A fixed wire name between two quotes. The names are plain identifiers,
/// so they render as themselves, with no escaping.
fn quote_plain(name: &str) -> (r: String)
    ensures
        r@ == seq!['"'] + name@ + seq!['"'],
{
    let mut r = String::new();
    push_char(&mut r, '"');
    r.append(name);
    push_char(&mut r, '"');
    proof {
        assert(r@ =~= seq!['"'] + name@ + seq!['"']);
    }
    r
}

/// The nested object value of the mobile money member.
fn mobile_money_value(m: &MobileMoney) -> (r: String)
    ensures
        r@ == mobile_money_chars(*m),
{
    let mut r = String::new();
    push_char(&mut r, '{');
    let phone_val = quote_string(m.phone.as_str());
    push_member(&mut r, "phone", phone_val.as_str(), true);
    let provider_val = quote_string(m.provider.as_str());
    push_member(&mut r, "provider", provider_val.as_str(), false);
    push_char(&mut r, '}');
    proof {
        assert(r@ =~= mobile_money_chars(*m));
    }
    r
}

/// The projection of members onto their wire keys.
pub open spec fn keys_of(ms: Seq<(Seq<char>, Seq<char>)>) -> Seq<Seq<char>> {
    ms.map_values(|m: (Seq<char>, Seq<char>)| m.0)
}

/// The wire keys of the serialized payload's members.
pub open spec fn member_keys(b: PaymentBuilder) -> Seq<Seq<char>> {
    keys_of(spec_members(b))
}

/// The wire keys of the required fields: always present.
pub open spec fn required_keys() -> Set<Seq<char>> {
    set!["amount"@, "email"@, "key"@]
}

/// The wire keys of exactly the optional fields that are set.
pub open spec fn optional_keys(b: PaymentBuilder) -> Set<Seq<char>> {
    (match b.channel {
        Some(Channel::MobileMoney(_)) => set!["mobile_money"@],
        Some(_) => set!["channel"@],
        None => Set::<Seq<char>>::empty(),
    }).union(
        match b.currency {
            Some(_) => set!["currency"@],
            None => Set::<Seq<char>>::empty(),
        },
    ).union(
        match b.label {
            Some(_) => set!["label"@],
            None => Set::<Seq<char>>::empty(),
        },
    ).union(
        match b.metadata {
            Some(_) => set!["metadata"@],
            None => Set::<Seq<char>>::empty(),
        },
    ).union(
        match b.reference {
            Some(_) => set!["reference"@],
            None => Set::<Seq<char>>::empty(),
        },
    )
}

/// An element is in a concatenation exactly when it is in one of the parts.
proof fn lemma_concat_contains<A>(a: Seq<A>, b: Seq<A>, x: A)
    ensures
        (a + b).contains(x) <==> a.contains(x) || b.contains(x),
{
    if a.contains(x) {
        let i = choose|i: int| 0 <= i < a.len() && a[i] == x;
        assert((a + b)[i] == x);
    }
    if b.contains(x) {
        let i = choose|i: int| 0 <= i < b.len() && b[i] == x;
        assert((a + b)[a.len() + i] == x);
    }
    if (a + b).contains(x) {
        let i = choose|i: int| 0 <= i < (a + b).len() && (a + b)[i] == x;
        if i < a.len() {
            assert(a[i] == x);
        } else {
            assert(b[i - a.len()] == x);
        }
    }
}

/// A key is among a member sequence's keys exactly when some member
/// carries it.
proof fn lemma_keys_contains(ms: Seq<(Seq<char>, Seq<char>)>, k: Seq<char>)
    ensures
        keys_of(ms).contains(k) <==> exists|m: (Seq<char>, Seq<char>)|
            ms.contains(m) && m.0 == k,
{
    if keys_of(ms).contains(k) {
        let i = choose|i: int| 0 <= i < keys_of(ms).len() && keys_of(ms)[i] == k;
        assert(ms.contains(ms[i]) && ms[i].0 == k);
    }
    if exists|m: (Seq<char>, Seq<char>)| ms.contains(m) && m.0 == k {
        let m = choose|m: (Seq<char>, Seq<char>)| ms.contains(m) && m.0 == k;
        let i = choose|i: int| 0 <= i < ms.len() && ms[i] == m;
        assert(keys_of(ms)[i] == k);
    }
}

/// A member is one of the payload's members exactly when it is in one of
/// its nine sections.
proof fn lemma_members_split(b: PaymentBuilder, m: (Seq<char>, Seq<char>))
    ensures
        spec_members(b).contains(m) <==> {
            ||| seq![("amount"@, b.amount.spec_chars())].contains(m)
            ||| channel_member(b.channel).contains(m)
            ||| currency_member(b.currency).contains(m)
            ||| seq![("email"@, quoted(b.email@))].contains(m)
            ||| seq![("key"@, quoted(b.key@))].contains(m)
            ||| opt_member("label"@, b.label).contains(m)
            ||| opt_member("metadata"@, b.metadata).contains(m)
            ||| mobile_member(b.channel).contains(m)
            ||| opt_member("reference"@, b.reference).contains(m)
        },
{
    let p0 = seq![("amount"@, b.amount.spec_chars())];
    let p1 = channel_member(b.channel);
    let p2 = currency_member(b.currency);
    let p3 = seq![("email"@, quoted(b.email@))];
    let p4 = seq![("key"@, quoted(b.key@))];
    let p5 = opt_member("label"@, b.label);
    let p6 = opt_member("metadata"@, b.metadata);
    let p7 = mobile_member(b.channel);
    let p8 = opt_member("reference"@, b.reference);
    lemma_concat_contains(p0 + p1 + p2 + p3 + p4 + p5 + p6 + p7, p8, m);
    lemma_concat_contains(p0 + p1 + p2 + p3 + p4 + p5 + p6, p7, m);
    lemma_concat_contains(p0 + p1 + p2 + p3 + p4 + p5, p6, m);
    lemma_concat_contains(p0 + p1 + p2 + p3 + p4, p5, m);
    lemma_concat_contains(p0 + p1 + p2 + p3, p4, m);
    lemma_concat_contains(p0 + p1 + p2, p3, m);
    lemma_concat_contains(p0 + p1, p2, m);
    lemma_concat_contains(p0, p1, m);
}

/// A singleton contains exactly its element.
proof fn lemma_singleton_contains<A>(x: A, y: A)
    ensures
        seq![x].contains(y) <==> x == y,
{
    if x == y {
        assert(seq![x][0] == y);
    }
}

/// One direction at a time: a key stands among the payload's member keys
/// exactly when it is a required wire key or the wire key of an optional
/// field that is set.
proof fn lemma_member_keys_iff(b: PaymentBuilder, k: Seq<char>)
    ensures
        member_keys(b).contains(k) <==> required_keys().union(optional_keys(b)).contains(k),
{
    lemma_keys_contains(spec_members(b), k);
    let m_amount = ("amount"@, b.amount.spec_chars());
    let m_email = ("email"@, quoted(b.email@));
    let m_key = ("key"@, quoted(b.key@));
    let expected = required_keys().union(optional_keys(b));

    if member_keys(b).contains(k) {
        let m = choose|m: (Seq<char>, Seq<char>)|
            spec_members(b).contains(m) && m.0 == k;
        lemma_members_split(b, m);
        lemma_singleton_contains(m_amount, m);
        lemma_singleton_contains(m_email, m);
        lemma_singleton_contains(m_key, m);
        if m == m_amount || m == m_email || m == m_key {
            assert(expected.contains(k));
        } else if channel_member(b.channel).contains(m) {
            match b.channel {
                Some(Channel::MobileMoney(_)) => {
                    assert(false);
                },
                Some(ch) => {
                    lemma_singleton_contains(
                        ("channel"@, seq!['"'] + channel_chars(ch) + seq!['"']),
                        m,
                    );
                    assert(expected.contains(k));
                },
                None => {
                    assert(false);
                },
            }
        } else if currency_member(b.currency).contains(m) {
            match b.currency {
                Some(cur) => {
                    lemma_singleton_contains(
                        ("currency"@, seq!['"'] + currency_chars(cur) + seq!['"']),
                        m,
                    );
                    assert(expected.contains(k));
                },
                None => {
                    assert(false);
                },
            }
        } else if opt_member("label"@, b.label).contains(m) {
            match b.label {
                Some(s) => {
                    lemma_singleton_contains(("label"@, quoted(s@)), m);
                    assert(expected.contains(k));
                },
                None => {
                    assert(false);
                },
            }
        } else if opt_member("metadata"@, b.metadata).contains(m) {
            match b.metadata {
                Some(s) => {
                    lemma_singleton_contains(("metadata"@, quoted(s@)), m);
                    assert(expected.contains(k));
                },
                None => {
                    assert(false);
                },
            }
        } else if mobile_member(b.channel).contains(m) {
            match b.channel {
                Some(Channel::MobileMoney(mm)) => {
                    lemma_singleton_contains(("mobile_money"@, mobile_money_chars(mm)), m);
                    assert(expected.contains(k));
                },
                _ => {
                    assert(false);
                },
            }
        } else {
            assert(opt_member("reference"@, b.reference).contains(m));
            match b.reference {
                Some(s) => {
                    lemma_singleton_contains(("reference"@, quoted(s@)), m);
                    assert(expected.contains(k));
                },
                None => {
                    assert(false);
                },
            }
        }
    }

    if expected.contains(k) {
        lemma_singleton_contains(m_amount, m_amount);
        lemma_members_split(b, m_amount);
        lemma_singleton_contains(m_email, m_email);
        lemma_members_split(b, m_email);
        lemma_singleton_contains(m_key, m_key);
        lemma_members_split(b, m_key);
        match b.channel {
            Some(Channel::MobileMoney(mm)) => {
                let m = ("mobile_money"@, mobile_money_chars(mm));
                lemma_singleton_contains(m, m);
                lemma_members_split(b, m);
            },
            Some(ch) => {
                let m = ("channel"@, seq!['"'] + channel_chars(ch) + seq!['"']);
                lemma_singleton_contains(m, m);
                lemma_members_split(b, m);
            },
            None => {
            },
        }
        match b.currency {
            Some(cur) => {
                let m = ("currency"@, seq!['"'] + currency_chars(cur) + seq!['"']);
                lemma_singleton_contains(m, m);
                lemma_members_split(b, m);
            },
            None => {
            },
        }
        match b.label {
            Some(s) => {
                let m = ("label"@, quoted(s@));
                lemma_singleton_contains(m, m);
                lemma_members_split(b, m);
            },
            None => {
            },
        }
        match b.metadata {
            Some(s) => {
                let m = ("metadata"@, quoted(s@));
                lemma_singleton_contains(m, m);
                lemma_members_split(b, m);
            },
            None => {
            },
        }
        match b.reference {
            Some(s) => {
                let m = ("reference"@, quoted(s@));
                lemma_singleton_contains(m, m);
                lemma_members_split(b, m);
            },
            None => {
            },
        }
        assert(member_keys(b).contains(k));
    }
}

/// No member's value is the JSON null token: values open with a quote, a
/// brace, a minus sign or a digit.
proof fn lemma_value_not_null(b: PaymentBuilder, m: (Seq<char>, Seq<char>))
    requires
        spec_members(b).contains(m),
    ensures
        m.1 != "null"@,
{
    reveal_strlit("null");
    assert("null"@[0] == 'n');
    lemma_members_split(b, m);
    let m_amount = ("amount"@, b.amount.spec_chars());
    let m_email = ("email"@, quoted(b.email@));
    let m_key = ("key"@, quoted(b.key@));
    lemma_singleton_contains(m_amount, m);
    lemma_singleton_contains(m_email, m);
    lemma_singleton_contains(m_key, m);
    if m == m_amount {
        crate::amount::lemma_dec_digits_first(b.amount.units as nat);
        if b.amount.negative {
            assert(m.1[0] == '-');
        } else {
            assert(m.1[0] == dec_digits(b.amount.units as nat)[0]);
        }
        assert(m.1[0] != 'n');
    } else if m == m_email || m == m_key {
        assert(m.1[0] == '"');
    } else if channel_member(b.channel).contains(m) {
        match b.channel {
            Some(Channel::MobileMoney(_)) => {
                assert(false);
            },
            Some(ch) => {
                lemma_singleton_contains(
                    ("channel"@, seq!['"'] + channel_chars(ch) + seq!['"']),
                    m,
                );
                assert(m.1[0] == '"');
            },
            None => {
                assert(false);
            },
        }
    } else if currency_member(b.currency).contains(m) {
        match b.currency {
            Some(cur) => {
                lemma_singleton_contains(
                    ("currency"@, seq!['"'] + currency_chars(cur) + seq!['"']),
                    m,
                );
                assert(m.1[0] == '"');
            },
            None => {
                assert(false);
            },
        }
    } else if opt_member("label"@, b.label).contains(m) {
        match b.label {
            Some(s) => {
                lemma_singleton_contains(("label"@, quoted(s@)), m);
                assert(m.1[0] == '"');
            },
            None => {
                assert(false);
            },
        }
    } else if opt_member("metadata"@, b.metadata).contains(m) {
        match b.metadata {
            Some(s) => {
                lemma_singleton_contains(("metadata"@, quoted(s@)), m);
                assert(m.1[0] == '"');
            },
            None => {
                assert(false);
            },
        }
    } else if mobile_member(b.channel).contains(m) {
        match b.channel {
            Some(Channel::MobileMoney(mm)) => {
                lemma_singleton_contains(("mobile_money"@, mobile_money_chars(mm)), m);
                assert(m.1[0] == '{');
            },
            _ => {
                assert(false);
            },
        }
    } else {
        assert(opt_member("reference"@, b.reference).contains(m));
        match b.reference {
            Some(s) => {
                lemma_singleton_contains(("reference"@, quoted(s@)), m);
                assert(m.1[0] == '"');
            },
            None => {
                assert(false);
            },
        }
    }
}

/// The position of each wire key in the payload's sorted wire order;
/// any other key ranks last.
pub open spec fn key_rank(k: Seq<char>) -> int {
    if k == "amount"@ {
        0
    } else if k == "channel"@ {
        1
    } else if k == "currency"@ {
        2
    } else if k == "email"@ {
        3
    } else if k == "key"@ {
        4
    } else if k == "label"@ {
        5
    } else if k == "metadata"@ {
        6
    } else if k == "mobile_money"@ {
        7
    } else if k == "reference"@ {
        8
    } else {
        9
    }
}

/// Ranks strictly increase along the sequence.
pub open spec fn ranks_increasing(ks: Seq<Seq<char>>) -> bool {
    forall|i: int, j: int| 0 <= i < j < ks.len() ==> key_rank(ks[i]) < key_rank(ks[j])
}

/// The nine wire keys are pairwise distinct, so each sits at its own rank.
proof fn lemma_key_ranks()
    ensures
        key_rank("amount"@) == 0,
        key_rank("channel"@) == 1,
        key_rank("currency"@) == 2,
        key_rank("email"@) == 3,
        key_rank("key"@) == 4,
        key_rank("label"@) == 5,
        key_rank("metadata"@) == 6,
        key_rank("mobile_money"@) == 7,
        key_rank("reference"@) == 8,
{
    reveal_strlit("amount");
    reveal_strlit("channel");
    reveal_strlit("currency");
    reveal_strlit("email");
    reveal_strlit("key");
    reveal_strlit("label");
    reveal_strlit("metadata");
    reveal_strlit("mobile_money");
    reveal_strlit("reference");
    assert("amount"@.len() == 6);
    assert("channel"@.len() == 7);
    assert("currency"@.len() == 8);
    assert("email"@.len() == 5);
    assert("key"@.len() == 3);
    assert("label"@.len() == 5);
    assert("metadata"@.len() == 8);
    assert("mobile_money"@.len() == 12);
    assert("reference"@.len() == 9);
    assert("email"@[0] == 'e' && "label"@[0] == 'l');
    assert("currency"@[0] == 'c' && "metadata"@[0] == 'm');
}

/// Keys project through concatenation.
proof fn lemma_keys_of_concat(a: Seq<(Seq<char>, Seq<char>)>, b: Seq<(Seq<char>, Seq<char>)>)
    ensures
        keys_of(a + b) == keys_of(a) + keys_of(b),
{
    assert(keys_of(a + b) =~= keys_of(a) + keys_of(b));
}

/// Appending at most one key of the next rank after an increasing key
/// sequence keeps the ranks increasing.
proof fn lemma_increasing_concat(a: Seq<Seq<char>>, b: Seq<Seq<char>>, cut: int)
    requires
        ranks_increasing(a),
        b.len() <= 1,
        forall|i: int| 0 <= i < a.len() ==> key_rank(#[trigger] a[i]) < cut,
        forall|i: int| 0 <= i < b.len() ==> key_rank(#[trigger] b[i]) == cut,
    ensures
        ranks_increasing(a + b),
        forall|i: int|
            0 <= i < (a + b).len() ==> key_rank(#[trigger] (a + b)[i]) < cut + 1,
{
    assert forall|i: int, j: int| 0 <= i < j < (a + b).len() implies key_rank(
        (a + b)[i],
    ) < key_rank((a + b)[j]) by {
        if j < a.len() {
            assert((a + b)[i] == a[i]);
            assert((a + b)[j] == a[j]);
        } else {
            assert((a + b)[i] == a[i]);
            assert((a + b)[j] == b[j - a.len()]);
        }
    }
    assert forall|i: int| 0 <= i < (a + b).len() implies key_rank((a + b)[i]) < cut + 1 by {
        if i < a.len() {
            assert((a + b)[i] == a[i]);
        } else {
            assert((a + b)[i] == b[i - a.len()]);
        }
    }
}

/// The payload's wire keys come in strictly sorted wire order, so each
/// key appears at most once.
proof fn lemma_keys_increasing(b: PaymentBuilder)
    ensures
        ranks_increasing(member_keys(b)),
{
    lemma_key_ranks();
    let p0 = seq![("amount"@, b.amount.spec_chars())];
    let p1 = channel_member(b.channel);
    let p2 = currency_member(b.currency);
    let p3 = seq![("email"@, quoted(b.email@))];
    let p4 = seq![("key"@, quoted(b.key@))];
    let p5 = opt_member("label"@, b.label);
    let p6 = opt_member("metadata"@, b.metadata);
    let p7 = mobile_member(b.channel);
    let p8 = opt_member("reference"@, b.reference);

    let k0 = keys_of(p0);
    let k1 = keys_of(p1);
    let k2 = keys_of(p2);
    let k3 = keys_of(p3);
    let k4 = keys_of(p4);
    let k5 = keys_of(p5);
    let k6 = keys_of(p6);
    let k7 = keys_of(p7);
    let k8 = keys_of(p8);

    assert(forall|i: int| 0 <= i < k0.len() ==> #[trigger] k0[i] == "amount"@);
    assert(forall|i: int| 0 <= i < k1.len() ==> #[trigger] k1[i] == "channel"@);
    assert(forall|i: int| 0 <= i < k2.len() ==> #[trigger] k2[i] == "currency"@);
    assert(forall|i: int| 0 <= i < k3.len() ==> #[trigger] k3[i] == "email"@);
    assert(forall|i: int| 0 <= i < k4.len() ==> #[trigger] k4[i] == "key"@);
    assert(forall|i: int| 0 <= i < k5.len() ==> #[trigger] k5[i] == "label"@);
    assert(forall|i: int| 0 <= i < k6.len() ==> #[trigger] k6[i] == "metadata"@);
    assert(forall|i: int| 0 <= i < k7.len() ==> #[trigger] k7[i] == "mobile_money"@);
    assert(forall|i: int| 0 <= i < k8.len() ==> #[trigger] k8[i] == "reference"@);

    assert(k0.len() <= 1 && k1.len() <= 1 && k2.len() <= 1 && k3.len() <= 1 && k4.len() <= 1
        && k5.len() <= 1 && k6.len() <= 1 && k7.len() <= 1 && k8.len() <= 1);

    lemma_increasing_concat(k0, k1, 1);
    lemma_keys_of_concat(p0, p1);
    let a1 = k0 + k1;
    assert(forall|i: int| 0 <= i < a1.len() ==> key_rank(#[trigger] a1[i]) < 2);
    lemma_increasing_concat(a1, k2, 2);
    lemma_keys_of_concat(p0 + p1, p2);
    let a2 = a1 + k2;
    assert(forall|i: int| 0 <= i < a2.len() ==> key_rank(#[trigger] a2[i]) < 3);
    lemma_increasing_concat(a2, k3, 3);
    lemma_keys_of_concat(p0 + p1 + p2, p3);
    let a3 = a2 + k3;
    assert(forall|i: int| 0 <= i < a3.len() ==> key_rank(#[trigger] a3[i]) < 4);
    lemma_increasing_concat(a3, k4, 4);
    lemma_keys_of_concat(p0 + p1 + p2 + p3, p4);
    let a4 = a3 + k4;
    assert(forall|i: int| 0 <= i < a4.len() ==> key_rank(#[trigger] a4[i]) < 5);
    lemma_increasing_concat(a4, k5, 5);
    lemma_keys_of_concat(p0 + p1 + p2 + p3 + p4, p5);
    let a5 = a4 + k5;
    assert(forall|i: int| 0 <= i < a5.len() ==> key_rank(#[trigger] a5[i]) < 6);
    lemma_increasing_concat(a5, k6, 6);
    lemma_keys_of_concat(p0 + p1 + p2 + p3 + p4 + p5, p6);
    let a6 = a5 + k6;
    assert(forall|i: int| 0 <= i < a6.len() ==> key_rank(#[trigger] a6[i]) < 7);
    lemma_increasing_concat(a6, k7, 7);
    lemma_keys_of_concat(p0 + p1 + p2 + p3 + p4 + p5 + p6, p7);
    let a7 = a6 + k7;
    assert(forall|i: int| 0 <= i < a7.len() ==> key_rank(#[trigger] a7[i]) < 8);
    lemma_increasing_concat(a7, k8, 8);
    lemma_keys_of_concat(p0 + p1 + p2 + p3 + p4 + p5 + p6 + p7, p8);
    assert(member_keys(b) == a7 + k8);
}

/// Pruning law: the payload's key set is exactly the wire keys of the
/// required fields together with those of the optional fields that are
/// set — no other key appears — each key appears only once, and no
/// member's value is the JSON null.
pub proof fn lemma_pruning(b: PaymentBuilder)
    ensures
        member_keys(b).to_set() =~= required_keys().union(optional_keys(b)),
        member_keys(b).no_duplicates(),
        forall|m: (Seq<char>, Seq<char>)| #[trigger]
            spec_members(b).contains(m) ==> m.1 != "null"@,
{
    lemma_keys_increasing(b);
    assert forall|i: int, j: int|
        0 <= i < j < member_keys(b).len() implies member_keys(b)[i] != member_keys(
        b,
    )[j] by {
        assert(key_rank(member_keys(b)[i]) < key_rank(member_keys(b)[j]));
    }

    assert forall|k: Seq<char>|
        member_keys(b).to_set().contains(k) == required_keys().union(
            optional_keys(b),
        ).contains(k) by {
        lemma_member_keys_iff(b, k);
    }
    assert forall|m: (Seq<char>, Seq<char>)| #[trigger]
        spec_members(b).contains(m) implies m.1 != "null"@ by {
        lemma_value_not_null(b, m);
    }
}

/// The builder after selecting a channel.
pub open spec fn with_channel(b: PaymentBuilder, c: Channel) -> PaymentBuilder {
    PaymentBuilder { channel: Some(c), ..b }
}

/// Channel exclusivity: selecting one channel and then another serializes
/// exactly as selecting only the second; nothing of the first remains in
/// the payload.
pub proof fn lemma_channel_exclusive(b: PaymentBuilder, first: Channel, second: Channel)
    ensures
        spec_json(with_channel(with_channel(b, first), second)) == spec_json(
            with_channel(b, second),
        ),
{
    assert(with_channel(with_channel(b, first), second) == with_channel(b, second));
}

/// Serialization is idempotent: the payload is a pure function of the
/// built request, so any two serializations of the same unmodified request
/// are identical, character for character.
pub proof fn lemma_serialize_idempotent(b: PaymentBuilder, s1: Seq<char>, s2: Seq<char>)
    requires
        s1 == spec_json(b),
        s2 == spec_json(b),
    ensures
        s1 == s2,
{
}

/// Secret isolation: two requests that differ only in their
/// authentication key serialize to payloads of the same shape — the same
/// wire keys in the same order — and every member other than the "key"
/// member is identical. The key reaches nothing in the payload but the
/// value of its own member.
pub proof fn lemma_key_isolation(b1: PaymentBuilder, b2: PaymentBuilder)
    requires
        b1.amount == b2.amount,
        b1.email@ == b2.email@,
        b1.channel == b2.channel,
        b1.currency == b2.currency,
        b1.label == b2.label,
        b1.metadata == b2.metadata,
        b1.reference == b2.reference,
    ensures
        spec_members(b1).len() == spec_members(b2).len(),
        forall|i: int|
            0 <= i < spec_members(b1).len() ==> #[trigger] spec_members(b1)[i].0
                == spec_members(b2)[i].0,
        forall|i: int|
            0 <= i < spec_members(b1).len() && spec_members(b1)[i].0 != "key"@
                ==> #[trigger] spec_members(b1)[i] == spec_members(b2)[i],
{
    assert(channel_member(b1.channel) == channel_member(b2.channel));
    assert(currency_member(b1.currency) == currency_member(b2.currency));
    assert(quoted(b1.email@) == quoted(b2.email@));
    assert(opt_member("label"@, b1.label) == opt_member("label"@, b2.label));
    assert(opt_member("metadata"@, b1.metadata) == opt_member("metadata"@, b2.metadata));
    assert(mobile_member(b1.channel) == mobile_member(b2.channel));
    assert(opt_member("reference"@, b1.reference) == opt_member("reference"@, b2.reference));
}

/// Data wrapper for a payment ready to send for initialization.
pub struct Payment(pub PaymentBuilder);

impl Payment {
    /// Build the `PaymentBuilder` object to be used by `Payment` to
    /// initiate a Paystack payment.
    pub fn builder(email: String, amount: Amount, key: SecretString) -> (b: PaymentBuilder)
        requires
            amount.wf(),
        ensures
            b.amount == amount,
            b.email == email,
            b.key@ == secret_chars(key),
            b.channel is None,
            b.currency is None,
            b.label is None,
            b.metadata is None,
            b.reference is None,
            b.wf(),
    {
        PaymentBuilder::init_payment(email, amount, key)
    }

    /// The serialized payload that the send operation posts.
    pub fn payload(&self) -> (s: String)
        requires
            self.0.wf(),
        ensures
            s@ == spec_json(self.0),
    {
        self.0.json_builder()
    }

    /// The Authorization header value the send and verify operations carry:
    /// the point of use of the authentication key.
    pub fn auth_header(&self) -> (h: String)
        ensures
            h@ == "Bearer "@ + self.0.key@,
    {
        let mut h = String::from_str("Bearer ");
        h.append(self.0.key.as_str());
        h
    }
}

} // verus!
