//! Records of the invoicing, news, reports and time-tracking parts of the
//! application, with their rules: invoice totals and activity types.

use crate::commands::clients::{check, checked};
use crate::text::{chars_of, lit, one_of};
use vstd::prelude::*;

verus! {

// ───────────────────────── invoices ─────────────────────────

/// A line of an invoice as stored.
pub struct InvoiceItem {
    pub id: u32,
    pub invoice_id: u32,
    pub description: String,
    pub quantity: u32,
    pub rate_cents: u32,
    pub total_cents: u32,
    pub created_at: i64,
}

/// An invoice (or quote) with its lines.
pub struct Invoice {
    pub id: u32,
    pub client_id: u32,
    pub client_name: String,
    pub engagement_id: Option<u32>,
    pub engagement_name: Option<String>,
    pub document_type: String,
    pub invoice_number: String,
    pub status: String,
    pub subtotal_cents: u32,
    pub tax_rate_bps: u32,
    pub discount_cents: u32,
    pub discount_pct_bps: u32,
    pub total_cents: u32,
    pub currency: String,
    pub notes: Option<String>,
    pub items: Vec<InvoiceItem>,
    pub is_active: bool,
    pub created_at: i64,
    pub updated_at: i64,
}

/// A line of an invoice as entered.
pub struct InvoiceItemInput {
    pub description: String,
    pub quantity: u32,
    pub rate_cents: u32,
}

/// An invoice as entered.
pub struct InvoiceInput {
    pub client_id: u32,
    pub engagement_id: Option<u32>,
    pub document_type: String,
    pub invoice_number: String,
    pub tax_rate_bps: u32,
    pub discount_cents: u32,
    pub discount_pct_bps: u32,
    pub currency: String,
    pub notes: Option<String>,
    pub items: Vec<InvoiceItemInput>,
}

/// The sum of quantity times rate over the lines.
pub open spec fn subtotal(items: Seq<InvoiceItemInput>) -> nat
    decreases items.len(),
{
    if items.len() == 0 {
        0
    } else {
        subtotal(items.drop_last()) + items.last().quantity as nat * items.last().rate_cents as nat
    }
}

/// `a - b`, or 0 when `b` is larger (`saturating_sub`).
pub open spec fn monus(a: nat, b: nat) -> nat {
    if a >= b {
        (a - b) as nat
    } else {
        0
    }
}

/// The amount after the fixed discount and then the percentage discount
/// (in basis points of the subtotal), never below zero.
pub open spec fn after_discount(sub: nat, discount_cents: nat, discount_pct_bps: nat) -> nat {
    monus(monus(sub, discount_cents), sub * discount_pct_bps / 10000)
}

/// The total: the discounted amount plus tax on it (in basis points).
pub open spec fn invoice_total(sub: nat, tax_rate_bps: nat, discount_cents: nat, discount_pct_bps: nat) -> nat {
    let a = after_discount(sub, discount_cents, discount_pct_bps);
    a + a * tax_rate_bps / 10000
}

proof fn lemma_subtotal_mono(items: Seq<InvoiceItemInput>, n: int)
    requires
        0 <= n <= items.len(),
    ensures
        subtotal(items.take(n)) <= subtotal(items),
    decreases items.len() - n,
{
    if n < items.len() {
        lemma_subtotal_mono(items, n + 1);
        assert(items.take(n + 1).drop_last() =~= items.take(n));
    } else {
        assert(items.take(n) =~= items);
    }
}

/// Computes an invoice's subtotal and total in cents from its lines, tax
/// rate and discounts, as 32-bit amounts (the low 32 bits of each sum).
/// The sums must fit in 64 bits.
pub fn recalc_total(
    items: &[InvoiceItemInput],
    tax_rate_bps: u32,
    discount_cents: u32,
    discount_pct_bps: u32,
) -> (r: (u32, u32))
    requires
        subtotal(items@) <= u64::MAX,
        subtotal(items@) * discount_pct_bps <= u64::MAX,
        after_discount(subtotal(items@), discount_cents as nat, discount_pct_bps as nat) * tax_rate_bps <= u64::MAX,
        invoice_total(subtotal(items@), tax_rate_bps as nat, discount_cents as nat, discount_pct_bps as nat) <= u64::MAX,
    ensures
        r.0 == subtotal(items@) % 0x1_0000_0000,
        r.1 == invoice_total(subtotal(items@), tax_rate_bps as nat, discount_cents as nat, discount_pct_bps as nat) % 0x1_0000_0000,
{
    let mut sub: u64 = 0;
    let mut i: usize = 0;
    proof {
        assert(items@.take(0) =~= Seq::<InvoiceItemInput>::empty());
    }
    while i < items.len()
        invariant
            i <= items@.len(),
            sub == subtotal(items@.take(i as int)),
            subtotal(items@) <= u64::MAX,
        decreases items.len() - i,
    {
        proof {
            assert(items@.take(i + 1).drop_last() =~= items@.take(i as int));
            lemma_subtotal_mono(items@, i + 1);
        }
        let q = items[i].quantity as u64;
        let rt = items[i].rate_cents as u64;
        assert(q * rt <= u32::MAX * u32::MAX) by (nonlinear_arith)
            requires
                q <= u32::MAX,
                rt <= u32::MAX,
        ;
        sub = sub + q * rt;
        i = i + 1;
    }
    proof {
        assert(items@.take(i as int) =~= items@);
    }
    let ghost s = sub as nat;
    let pct = (sub as u128 * discount_pct_bps as u128 / 10000) as u64;
    let a1: u64 = if sub >= discount_cents as u64 { sub - discount_cents as u64 } else { 0 };
    let after: u64 = if a1 >= pct { a1 - pct } else { 0 };
    let tax = (after as u128 * tax_rate_bps as u128 / 10000) as u64;
    proof {
        assert(after as nat == after_discount(s, discount_cents as nat, discount_pct_bps as nat));
        assert(tax as nat == after as nat * tax_rate_bps as nat / 10000);
    }
    let total: u64 = after + tax;
    let t0 = #[verifier::truncate] (sub as u32);
    let t1 = #[verifier::truncate] (total as u32);
    proof {
        assert(t0 == sub % 0x1_0000_0000) by (bit_vector)
            requires
                t0 == sub as u32,
        ;
        assert(t1 == total % 0x1_0000_0000) by (bit_vector)
            requires
                t1 == total as u32,
        ;
    }
    (t0, t1)
}

/// The statuses an invoice may take.
pub open spec fn invoice_statuses() -> Seq<Seq<char>> {
    seq!["draft"@, "sent"@, "paid"@, "cancelled"@, "overdue"@]
}

/// Checks a new invoice status: one of `invoice_statuses`, else the error
/// "Invalid invoice status.".
pub fn validate_invoice_status(status: &str) -> (r: Result<(), String>)
    ensures
        checked(r, check(invoice_statuses().contains(status@), "Invalid invoice status."@)),
{
    let v = chars_of(status);
    let opts = ["draft", "sent", "paid", "cancelled", "overdue"];
    let ok = one_of(&v, &opts);
    proof {
        assert(opts@.map_values(|s: &str| s@) =~= invoice_statuses());
        if ok {
            let i = choose|i: int| 0 <= i < opts@.len() && v@ == (#[trigger] opts@[i])@;
            assert(invoice_statuses()[i] == status@);
        } else {
            assert forall|i: int| 0 <= i < invoice_statuses().len() implies invoice_statuses()[i] != status@ by {
                assert(opts@[i]@ == invoice_statuses()[i]);
            }
        }
    }
    if ok {
        Ok(())
    } else {
        Err(lit("Invalid invoice status."))
    }
}

/// The payment gate of the engagement an invoice belongs to, after the
/// invoice takes a status: cleared (1) exactly when the invoice is paid.
pub fn payment_cleared(status: &str) -> (r: u32)
    ensures
        r == (if status@ == "paid"@ { 1u32 } else { 0u32 }),
{
    if crate::text::str_eq(status, "paid") {
        1
    } else {
        0
    }
}

/// The number of an invoice made from time entries at a Unix time:
/// "INV-" and the seconds.
pub fn time_invoice_number(unix_seconds: u64) -> (r: String)
    ensures
        r@ == "INV-"@ + crate::text::decimal(unix_seconds as nat),
{
    let mut s = lit("INV-");
    let d = crate::text::decimal_string(unix_seconds);
    s.append(d.as_str());
    s
}

/// The note of an invoice made from time entries between two dates.
pub fn time_invoice_notes(date_from: &str, date_to: &str) -> (r: String)
    ensures
        r@ == "Generated from time entries "@ + date_from@ + " to "@ + date_to@,
{
    let mut s = lit("Generated from time entries ");
    s.append(date_from);
    s.append(" to ");
    s.append(date_to);
    s
}

// ───────────────────────── news ─────────────────────────

/// A news feed.
pub struct Feed {
    pub id: u32,
    pub url: String,
    pub name: String,
    pub is_default: bool,
    pub is_active: bool,
    pub created_at: i64,
    pub updated_at: i64,
}

/// A news article and the clients it concerns.
pub struct NewsArticle {
    pub id: u32,
    pub feed_id: u32,
    pub feed_name: String,
    pub guid: String,
    pub title: String,
    pub description: Option<String>,
    pub link: Option<String>,
    pub published_at: Option<i64>,
    pub matched_clients: Vec<u32>,
}

/// An unread article that mentions a client's technology.
pub struct ClientAlert {
    pub article_id: u32,
    pub article_title: String,
    pub article_link: Option<String>,
    pub client_id: u32,
    pub client_name: String,
    pub matched_tags: Vec<String>,
}

/// What a refresh of the feeds did.
pub struct RefreshResult {
    pub new_articles: u32,
    pub errors: Vec<String>,
}

// ───────────────────────── reports ─────────────────────────

/// A report of an engagement.
pub struct Report {
    pub id: u32,
    pub engagement_id: u32,
    pub engagement_name: String,
    pub client_name: String,
    pub name: String,
    pub executive_summary: String,
    pub appendix: String,
    pub included_finding_ids: Vec<u32>,
    pub status: String,
    pub generated_at: Option<i64>,
    pub file_path: Option<String>,
    pub is_active: bool,
    pub created_at: i64,
    pub updated_at: i64,
}

// ───────────────────────── time tracking ─────────────────────────

/// The activity types of time entries.
pub open spec fn activity_types() -> Seq<Seq<char>> {
    seq!["testing"@, "reporting"@, "scoping"@, "communication"@, "remediation_support"@, "retest"@, "admin"@, "other"@]
}

pub open spec fn activity_rule(t: Seq<char>) -> Result<(), Seq<char>> {
    check(
        activity_types().contains(t),
        "Invalid activity_type: "@ + t
            + ". Must be one of: [\"testing\", \"reporting\", \"scoping\", \"communication\", \"remediation_support\", \"retest\", \"admin\", \"other\"]"@,
    )
}

/// Checks the activity type of a time entry.
pub fn validate_activity(t: &str) -> (r: Result<(), String>)
    ensures
        checked(r, activity_rule(t@)),
{
    let v = chars_of(t);
    let opts = ["testing", "reporting", "scoping", "communication", "remediation_support", "retest", "admin", "other"];
    let ok = one_of(&v, &opts);
    proof {
        assert(opts@.map_values(|s: &str| s@) =~= activity_types());
        if ok {
            let i = choose|i: int| 0 <= i < opts@.len() && v@ == (#[trigger] opts@[i])@;
            assert(activity_types()[i] == t@);
        } else {
            assert forall|i: int| 0 <= i < activity_types().len() implies activity_types()[i] != t@ by {
                assert(opts@[i]@ == activity_types()[i]);
            }
        }
    }
    if ok {
        Ok(())
    } else {
        let mut m = lit("Invalid activity_type: ");
        m.append(t);
        m.append(". Must be one of: [\"testing\", \"reporting\", \"scoping\", \"communication\", \"remediation_support\", \"retest\", \"admin\", \"other\"]");
        Err(m)
    }
}

} // verus!
