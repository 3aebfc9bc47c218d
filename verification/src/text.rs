//! The text form of numbers, identifiers and values, from which the text form
//! of events is built.

use vstd::prelude::*;
use crate::container::Item;
use crate::container::ValueOrContainer;
use crate::value::ContainerID;
use crate::value::ContainerIdView;
use crate::value::ContainerType;
use crate::value::ID;
use crate::value::LoroValue;
use crate::value::TreeID;
use crate::value::TreeParentId;

verus! {

/// The digit `d`.
pub open spec fn digit_text(d: nat) -> Seq<char> {
    if d == 0 {
        "0"@
    } else if d == 1 {
        "1"@
    } else if d == 2 {
        "2"@
    } else if d == 3 {
        "3"@
    } else if d == 4 {
        "4"@
    } else if d == 5 {
        "5"@
    } else if d == 6 {
        "6"@
    } else if d == 7 {
        "7"@
    } else if d == 8 {
        "8"@
    } else {
        "9"@
    }
}

/// The number `n` in decimal digits, without leading zeros.
pub open spec fn decimal(n: nat) -> Seq<char>
    decreases n,
{
    if n < 10 {
        digit_text(n)
    } else {
        decimal(n / 10) + digit_text(n % 10)
    }
}

/// The number `i` in decimal digits, with `-` before a negative one.
pub open spec fn signed_decimal(i: int) -> Seq<char> {
    if i < 0 {
        "-"@ + decimal((-i) as nat)
    } else {
        decimal(i as nat)
    }
}

/// The parts one after another, with `sep` between each two.
pub open spec fn joined(parts: Seq<Seq<char>>, sep: Seq<char>) -> Seq<char>
    decreases parts.len(),
{
    if parts.len() == 0 {
        Seq::empty()
    } else if parts.len() == 1 {
        parts[0]
    } else {
        joined(parts.drop_last(), sep) + sep + parts.last()
    }
}

/// The parts with one more joined on.
pub proof fn lemma_joined_push(parts: Seq<Seq<char>>, sep: Seq<char>, part: Seq<char>)
    ensures
        joined(parts.push(part), sep) == if parts.len() == 0 {
            part
        } else {
            joined(parts, sep) + sep + part
        },
{
    assert(parts.push(part).drop_last() =~= parts);
}

fn digit_str(d: u64) -> (s: &'static str)
    requires
        d < 10,
    ensures
        s@ == digit_text(d as nat),
{
    if d == 0 {
        "0"
    } else if d == 1 {
        "1"
    } else if d == 2 {
        "2"
    } else if d == 3 {
        "3"
    } else if d == 4 {
        "4"
    } else if d == 5 {
        "5"
    } else if d == 6 {
        "6"
    } else if d == 7 {
        "7"
    } else if d == 8 {
        "8"
    } else {
        "9"
    }
}

/// Appends `n` in decimal digits.
pub fn append_decimal(out: &mut String, n: u64)
    ensures
        final(out)@ == old(out)@ + decimal(n as nat),
    decreases n,
{
    if n >= 10 {
        append_decimal(out, n / 10);
    }
    out.append(digit_str(n % 10));
    proof {
        if n >= 10 {
            assert(old(out)@ + decimal((n / 10) as nat) + digit_text((n % 10) as nat) =~= old(out)@
                + (decimal((n / 10) as nat) + digit_text((n % 10) as nat)));
        }
    }
}

/// Appends `i` in decimal digits, with `-` before a negative number.
pub fn append_signed(out: &mut String, i: i32)
    ensures
        final(out)@ == old(out)@ + signed_decimal(i as int),
{
    if i < 0 {
        out.append("-");
        let n: u64 = (-(i as i64)) as u64;
        append_decimal(out, n);
        proof {
            assert(old(out)@ + "-"@ + decimal(n as nat) =~= old(out)@ + ("-"@ + decimal(n as nat)));
        }
    } else {
        append_decimal(out, i as u64);
    }
}

/// `true` or `false`.
pub open spec fn bool_text(b: bool) -> Seq<char> {
    if b {
        "true"@
    } else {
        "false"@
    }
}

pub fn bool_str(b: bool) -> (s: &'static str)
    ensures
        s@ == bool_text(b),
{
    if b {
        "true"
    } else {
        "false"
    }
}

/// An operation as `counter@peer`.
pub open spec fn id_text(peer: u64, counter: i32) -> Seq<char> {
    signed_decimal(counter as int) + "@"@ + decimal(peer as nat)
}

/// Appends an operation as `counter@peer`.
pub fn append_id(out: &mut String, peer: u64, counter: i32)
    ensures
        final(out)@ == old(out)@ + id_text(peer, counter),
{
    append_signed(out, counter);
    out.append("@");
    append_decimal(out, peer);
    proof {
        assert(old(out)@ + signed_decimal(counter as int) + "@"@ + decimal(peer as nat) =~= old(out)@
            + id_text(peer, counter));
    }
}

impl ID {
    /// The identifier as `counter@peer`.
    pub fn to_string(&self) -> (s: String)
        ensures
            s@ == id_text(self.peer, self.counter),
    {
        let mut out = String::new();
        append_id(&mut out, self.peer, self.counter);
        proof {
            assert(Seq::<char>::empty() + id_text(self.peer, self.counter) =~= id_text(
                self.peer,
                self.counter,
            ));
        }
        out
    }
}

impl TreeID {
    /// The identifier as `counter@peer`.
    pub fn to_string(&self) -> (s: String)
        ensures
            s@ == id_text(self.peer, self.counter),
    {
        self.id().to_string()
    }
}

/// A parent as `Root`, `Deleted`, `Unexist` or
/// `Node(TreeID { peer: .., counter: .. })`.
pub open spec fn parent_text(p: TreeParentId) -> Seq<char> {
    match p {
        TreeParentId::Node(t) => "Node(TreeID { peer: "@ + decimal(t.peer as nat) + ", counter: "@
            + signed_decimal(t.counter as int) + " })"@,
        TreeParentId::Root => "Root"@,
        TreeParentId::Deleted => "Deleted"@,
        TreeParentId::Unexist => "Unexist"@,
    }
}

/// Appends a parent.
pub fn append_parent(out: &mut String, p: &TreeParentId)
    ensures
        final(out)@ == old(out)@ + parent_text(*p),
{
    match p {
        TreeParentId::Node(t) => {
            out.append("Node(TreeID { peer: ");
            append_decimal(out, t.peer);
            out.append(", counter: ");
            append_signed(out, t.counter);
            out.append(" })");
            proof {
                assert(old(out)@ + "Node(TreeID { peer: "@ + decimal(t.peer as nat) + ", counter: "@
                    + signed_decimal(t.counter as int) + " })"@ =~= old(out)@ + parent_text(*p));
            }
        },
        TreeParentId::Root => out.append("Root"),
        TreeParentId::Deleted => out.append("Deleted"),
        TreeParentId::Unexist => out.append("Unexist"),
    }
}

/// The name of a kind of container; `Unknown(n)` for one that is not known.
pub open spec fn kind_text(t: ContainerType) -> Seq<char> {
    match t {
        ContainerType::Text => "Text"@,
        ContainerType::Mapping => "Map"@,
        ContainerType::List => "List"@,
        ContainerType::MovableList => "MovableList"@,
        ContainerType::Tree => "Tree"@,
        ContainerType::Counter => "Counter"@,
        ContainerType::Unknown(k) => "Unknown("@ + decimal(k as nat) + ")"@,
    }
}

/// Appends the name of a kind of container.
pub fn append_kind(out: &mut String, t: ContainerType)
    ensures
        final(out)@ == old(out)@ + kind_text(t),
{
    match t {
        ContainerType::Text => out.append("Text"),
        ContainerType::Mapping => out.append("Map"),
        ContainerType::List => out.append("List"),
        ContainerType::MovableList => out.append("MovableList"),
        ContainerType::Tree => out.append("Tree"),
        ContainerType::Counter => out.append("Counter"),
        ContainerType::Unknown(k) => {
            out.append("Unknown(");
            append_decimal(out, k as u64);
            out.append(")");
            proof {
                assert(old(out)@ + "Unknown("@ + decimal(k as nat) + ")"@ =~= old(out)@ + kind_text(
                    t,
                ));
            }
        },
    }
}

/// A container as `cid:root-name:Kind` or `cid:counter@peer:Kind`.
pub open spec fn cid_text(c: ContainerIdView) -> Seq<char> {
    match c {
        ContainerIdView::Root { name, container_type } => "cid:root-"@ + name + ":"@ + kind_text(
            container_type,
        ),
        ContainerIdView::Normal { peer, counter, container_type } => "cid:"@ + id_text(
            peer,
            counter,
        ) + ":"@ + kind_text(container_type),
    }
}

/// Appends a container.
pub fn append_cid(out: &mut String, c: &ContainerID)
    ensures
        final(out)@ == old(out)@ + cid_text(c@),
{
    match c {
        ContainerID::Root { name, container_type } => {
            out.append("cid:root-");
            out.append(name.as_str());
            out.append(":");
            append_kind(out, *container_type);
            proof {
                assert(old(out)@ + "cid:root-"@ + name@ + ":"@ + kind_text(*container_type) =~= old(
                    out,
                )@ + cid_text(c@));
            }
        },
        ContainerID::Normal { peer, counter, container_type } => {
            out.append("cid:");
            append_id(out, *peer, *counter);
            out.append(":");
            append_kind(out, *container_type);
            proof {
                assert(old(out)@ + "cid:"@ + id_text(*peer, *counter) + ":"@ + kind_text(
                    *container_type,
                ) =~= old(out)@ + cid_text(c@));
            }
        },
    }
}

impl ContainerID {
    /// The identifier as `cid:root-name:Kind` or `cid:counter@peer:Kind`.
    pub fn to_string(&self) -> (s: String)
        ensures
            s@ == cid_text(self@),
    {
        let mut out = String::new();
        append_cid(&mut out, self);
        proof {
            assert(Seq::<char>::empty() + cid_text(self@) =~= cid_text(self@));
        }
        out
    }
}

/// What `Debug` writes for the `loro::LoroValue` that a value holds.
pub uninterp spec fn value_text(v: LoroValue) -> Seq<char>;

/// `Debug` of a `loro::LoroValue`.
#[verifier::external_body]
fn debug_value(v: &LoroValue) -> (s: String)
    ensures
        s@ == value_text(*v),
{
    format!("{:?}", v.0)
}

/// What `Display` writes for the double that a value holds; for a value that
/// holds none, what `Debug` writes for it.
pub uninterp spec fn amount_text(v: LoroValue) -> Seq<char>;

/// `Display` of the double in a `loro::LoroValue::Double`.
#[verifier::external_body]
fn display_amount(v: &LoroValue) -> (s: String)
    ensures
        s@ == amount_text(*v),
{
    match &v.0 {
        loro::LoroValue::Double(d) => format!("{}", d),
        other => format!("{:?}", other),
    }
}

impl LoroValue {
    /// The value as `Debug` writes it.
    pub fn to_string(&self) -> (s: String)
        ensures
            s@ == value_text(*self),
    {
        debug_value(self)
    }

    /// The double that the value holds as `Display` writes it.
    pub fn amount_to_string(&self) -> (s: String)
        ensures
            s@ == amount_text(*self),
    {
        display_amount(self)
    }
}

/// An item: a value as `Debug` writes it, a container as `Container(..)` round
/// its identifier.
pub open spec fn item_text(i: Item) -> Seq<char> {
    match i {
        Item::Value(v) => value_text(v),
        Item::Container(c) => "Container("@ + cid_text(c) + ")"@,
    }
}

/// Appends an item.
pub fn append_item(out: &mut String, x: &ValueOrContainer)
    ensures
        final(out)@ == old(out)@ + item_text(x.item()),
{
    match x {
        ValueOrContainer::Value(v) => {
            let s = debug_value(v);
            out.append(s.as_str());
        },
        ValueOrContainer::Container(c) => {
            out.append("Container(");
            let id = c.id();
            append_cid(out, &id);
            out.append(")");
            proof {
                assert(old(out)@ + "Container("@ + cid_text(id@) + ")"@ =~= old(out)@ + item_text(
                    x.item(),
                ));
            }
        },
    }
}

impl ValueOrContainer {
    /// The item as text.
    pub fn to_string(&self) -> (s: String)
        ensures
            s@ == item_text(self.item()),
    {
        let mut out = String::new();
        append_item(&mut out, self);
        proof {
            assert(Seq::<char>::empty() + item_text(self.item()) =~= item_text(self.item()));
        }
        out
    }
}

} // verus!
