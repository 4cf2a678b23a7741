//! Network interfaces, and which of them are used.
use regex::Regex;
use vstd::prelude::*;

use crate::address::{find_ipv4, IpAddress, Ipv4Address};
use crate::address::first_ipv4;
use crate::text::{joined, texts};

verus! {

/// A network interface of this machine.
#[derive(Debug)]
pub struct NetworkInterface {
    pub name: String,
    pub addresses: Vec<IpAddress>,
}

/// A network interface as plain values.
pub struct InterfaceInfo {
    pub name: Seq<char>,
    pub addresses: Seq<IpAddress>,
}

impl View for NetworkInterface {
    type V = InterfaceInfo;

    open spec fn view(&self) -> InterfaceInfo {
        InterfaceInfo { name: self.name@, addresses: self.addresses@ }
    }
}

/// Some items as plain values.
pub open spec fn views<T: View>(items: Seq<T>) -> Seq<T::V> {
    Seq::new(items.len(), |i: int| items[i]@)
}

/// The first IPv4 address of an interface.
pub fn get_first_ipv4_address(interface: &NetworkInterface) -> (r: Option<Ipv4Address>)
    ensures
        r == first_ipv4(interface@.addresses),
{
    find_ipv4(&interface.addresses)
}

/// Whether one of the interfaces has an address.
pub open spec fn belongs(address: Ipv4Address, interfaces: Seq<InterfaceInfo>) -> bool {
    exists|i: int|
        0 <= i < interfaces.len() && #[trigger] interfaces[i].addresses.contains(
            IpAddress::V4(address),
        )
}

/// Whether one of the interfaces has an address.
fn address_belongs(address: Ipv4Address, interfaces: &Vec<NetworkInterface>) -> (r: bool)
    ensures
        r == belongs(address, views(interfaces@)),
{
    let ghost all = views(interfaces@);
    let mut i: usize = 0;
    while i < interfaces.len()
        invariant
            all == views(interfaces@),
            i <= interfaces@.len(),
            forall|k: int|
                0 <= k < i ==> !(#[trigger] all[k].addresses.contains(IpAddress::V4(address))),
        decreases interfaces@.len() - i,
    {
        let addresses: &Vec<IpAddress> = &interfaces[i].addresses;
        let mut j: usize = 0;
        while j < addresses.len()
            invariant
                i < interfaces@.len(),
                all == views(interfaces@),
                *addresses == interfaces@[i as int].addresses,
                j <= addresses@.len(),
                forall|k: int| 0 <= k < j ==> #[trigger] addresses@[k] != IpAddress::V4(address),
            decreases addresses@.len() - j,
        {
            if addresses[j] == IpAddress::V4(address) {
                proof {
                    assert(all[i as int].addresses.contains(IpAddress::V4(address)));
                }
                return true;
            }
            j = j + 1;
        }
        i = i + 1;
    }
    false
}

/// Whether one of the addresses is one of this machine, given its interfaces.
pub fn any_address_belongs_to_this_machine(
    addresses: &Vec<Ipv4Address>,
    interfaces: &Vec<NetworkInterface>,
) -> (r: bool)
    ensures
        r == exists|i: int|
            0 <= i < addresses@.len() && belongs(#[trigger] addresses@[i], views(interfaces@)),
{
    let mut i: usize = 0;
    while i < addresses.len()
        invariant
            i <= addresses@.len(),
            forall|k: int| 0 <= k < i ==> !belongs(#[trigger] addresses@[k], views(interfaces@)),
        decreases addresses@.len() - i,
    {
        if address_belongs(addresses[i], interfaces) {
            return true;
        }
        i = i + 1;
    }
    false
}

/// Whether a text is a regular expression that can be used.
pub uninterp spec fn is_regex(pattern: Seq<char>) -> bool;

/// Whether a regular expression matches somewhere in a text. One that cannot be
/// used matches nowhere.
pub uninterp spec fn regex_matches(pattern: Seq<char>, text: Seq<char>) -> bool;

/// `Regex::new` of the regex crate, with its result taken by whether there is
/// one. That is a function of the pattern alone.
#[verifier::external_body]
fn regex_compiles(pattern: &str) -> (r: bool)
    ensures
        r == is_regex(pattern@),
{
    Regex::new(pattern).is_ok()
}

/// `Regex::is_match` of the regex crate, on the regular expression that
/// `Regex::new` makes of the pattern, and false where it makes none. The result
/// is a function of the pattern and the text alone.
#[verifier::external_body]
fn regex_is_match(pattern: &str, text: &str) -> (r: bool)
    ensures
        r == regex_matches(pattern@, text@),
        r ==> is_regex(pattern@),
{
    match Regex::new(pattern) {
        Ok(regex) => regex.is_match(text),
        Err(_) => false,
    }
}

/// A regular expression with `^` before it and `$` behind it. In one with a bare
/// `|`, each of the two anchors holds only of the part that it stands beside.
pub open spec fn anchored(pattern: Seq<char>) -> Seq<char> {
    seq!['^'] + pattern + seq!['$']
}

/// Each regular expression with anchors around it.
pub open spec fn all_anchored(patterns: Seq<Seq<char>>) -> Seq<Seq<char>> {
    Seq::new(patterns.len(), |i: int| anchored(patterns[i]))
}

/// The regular expressions with anchors around each, as alternatives of one.
pub open spec fn any_anchored(patterns: Seq<Seq<char>>) -> Seq<char> {
    joined(all_anchored(patterns), seq!['|'])
}

/// Makes one regular expression of several: each gets anchors of its own, and
/// they become alternatives.
pub fn anchored_pattern(patterns: &Vec<String>) -> (r: String)
    ensures
        r@ == any_anchored(texts(patterns@)),
{
    let mut text: String = String::new();
    let mut i: usize = 0;
    let ghost all = all_anchored(texts(patterns@));
    while i < patterns.len()
        invariant
            all == all_anchored(texts(patterns@)),
            i <= patterns@.len(),
            text@ == joined(all.take(i as int), seq!['|']),
        decreases patterns@.len() - i,
    {
        if i > 0 {
            text.push('|');
        }
        let ghost before = text@;
        text.push('^');
        text.append(patterns[i].as_str());
        text.push('$');
        proof {
            assert(text@ =~= before + all[i as int]);
            assert(all.take(i + 1).drop_last() =~= all.take(i as int));
            assert(Seq::<char>::empty() + all[0] =~= all[0]);
            assert(i > 0 ==> before =~= joined(all.take(i as int), seq!['|']) + seq!['|']);
        }
        i = i + 1;
    }
    proof {
        assert(all.take(all.len() as int) =~= all);
    }
    text
}

/// Which interfaces are used, by their names.
#[derive(Debug)]
pub struct NetworkInterfaceFilter {
    patterns_to_allow: Option<String>,
    patterns_to_ignore: Option<String>,
}

/// Which interfaces are used, as plain values.
pub struct FilterInfo {
    /// What an interface's name has to match.
    pub allow: Option<Seq<char>>,
    /// What an interface's name must not match.
    pub ignore: Option<Seq<char>>,
}

impl View for NetworkInterfaceFilter {
    type V = FilterInfo;

    closed spec fn view(&self) -> FilterInfo {
        FilterInfo {
            allow: crate::web::optional_text(self.patterns_to_allow),
            ignore: crate::web::optional_text(self.patterns_to_ignore),
        }
    }
}

/// The regular expression that some patterns make, where there are any and it
/// can be used.
pub open spec fn compiled(patterns: Seq<Seq<char>>) -> Option<Seq<char>> {
    if patterns.len() > 0 && is_regex(any_anchored(patterns)) {
        Some(any_anchored(patterns))
    } else {
        None
    }
}

impl FilterInfo {
    /// Whether the interface with a name is used.
    pub open spec fn passes(self, name: Seq<char>) -> bool {
        &&& self.allow matches Some(pattern) ==> regex_matches(pattern, name)
        &&& self.ignore matches Some(pattern) ==> !regex_matches(pattern, name)
    }

    /// Whether each of some interfaces is used.
    pub open spec fn marks(self, interfaces: Seq<InterfaceInfo>) -> Seq<bool> {
        Seq::new(interfaces.len(), |i: int| self.passes(interfaces[i].name))
    }
}

/// The items that are marked, in their order.
pub open spec fn marked<T>(items: Seq<T>, marks: Seq<bool>) -> Seq<T>
    decreases items.len(),
{
    if items.len() == 0 || marks.len() == 0 {
        Seq::empty()
    } else if marks[0] {
        seq![items[0]] + marked(items.drop_first(), marks.drop_first())
    } else {
        marked(items.drop_first(), marks.drop_first())
    }
}

/// One more item, and whether it is marked.
proof fn lemma_marked_push<T>(items: Seq<T>, marks: Seq<bool>, item: T, mark: bool)
    requires
        items.len() == marks.len(),
    ensures
        marked(items.push(item), marks.push(mark)) == if mark {
            marked(items, marks).push(item)
        } else {
            marked(items, marks)
        },
    decreases items.len(),
{
    if items.len() > 0 {
        lemma_marked_push(items.drop_first(), marks.drop_first(), item, mark);
        assert(items.push(item).drop_first() =~= items.drop_first().push(item));
        assert(marks.push(mark).drop_first() =~= marks.drop_first().push(mark));
        assert(marked(items.push(item), marks.push(mark)) =~= if mark {
            marked(items, marks).push(item)
        } else {
            marked(items, marks)
        });
    } else {
        reveal_with_fuel(marked, 2);
        assert(items.push(item).drop_first() =~= Seq::<T>::empty());
        assert(marked(items.push(item), marks.push(mark)) =~= if mark {
            marked(items, marks).push(item)
        } else {
            marked(items, marks)
        });
    }
}

/// Keeps the interfaces that are marked.
pub fn keep_marked(interfaces: &mut Vec<NetworkInterface>, marks: &Vec<bool>)
    requires
        old(interfaces)@.len() == marks@.len(),
    ensures
        views(final(interfaces)@) == marked(views(old(interfaces)@), marks@),
{
    let mut all: Vec<NetworkInterface> = Vec::new();
    std::mem::swap(&mut all, interfaces);
    let ghost items = views(all@);
    let total: usize = marks.len();
    let mut i: usize = 0;
    for interface in iter: all
        invariant
            iter.seq() == all@,
            items == views(all@),
            all@.len() == marks@.len(),
            total == marks@.len(),
            i == iter.index(),
            views(interfaces@) == marked(items.take(i as int), marks@.take(i as int)),
    {
        let ghost before = interfaces@;
        proof {
            lemma_marked_push(
                items.take(i as int),
                marks@.take(i as int),
                items[i as int],
                marks@[i as int],
            );
            assert(items.take(i + 1) =~= items.take(i as int).push(items[i as int]));
            assert(marks@.take(i + 1) =~= marks@.take(i as int).push(marks@[i as int]));
        }
        if marks[i] {
            interfaces.push(interface);
            proof {
                assert(views(interfaces@) =~= views(before).push(items[i as int]));
            }
        }
        i = i + 1;
    }
    proof {
        assert(items.take(items.len() as int) =~= items);
        assert(marks@.take(items.len() as int) =~= marks@);
    }
}

impl NetworkInterfaceFilter {
    /// A filter that lets pass what matches one of the first patterns with its
    /// anchors, or anything where there are none, and none of the second ones. A
    /// set of patterns that cannot be used is left out.
    pub fn new(patterns_to_allow: Vec<String>, patterns_to_ignore: Vec<String>) -> (r: Self)
        ensures
            r@ == (FilterInfo {
                allow: compiled(texts(patterns_to_allow@)),
                ignore: compiled(texts(patterns_to_ignore@)),
            }),
    {
        NetworkInterfaceFilter {
            patterns_to_allow: Self::compile(patterns_to_allow),
            patterns_to_ignore: Self::compile(patterns_to_ignore),
        }
    }

    /// The regular expression that some patterns make, where there are any and
    /// it can be used.
    pub fn compile(patterns: Vec<String>) -> (r: Option<String>)
        ensures
            crate::web::optional_text(r) == compiled(texts(patterns@)),
    {
        if patterns.len() > 0 {
            let pattern: String = anchored_pattern(&patterns);
            if regex_compiles(pattern.as_str()) {
                return Some(pattern);
            }
        }
        None
    }

    /// Whether the interface with a name is used.
    pub fn is_used(&self, name: &str) -> (r: bool)
        ensures
            r == self@.passes(name@),
    {
        let allowed: bool = match &self.patterns_to_allow {
            Some(pattern) => regex_is_match(pattern.as_str(), name),
            None => true,
        };
        let ignored: bool = match &self.patterns_to_ignore {
            Some(pattern) => regex_is_match(pattern.as_str(), name),
            None => false,
        };
        allowed && !ignored
    }

    /// Keeps the interfaces that are used.
    pub fn filter(&self, interfaces: &mut Vec<NetworkInterface>)
        ensures
            views(final(interfaces)@) == marked(
                views(old(interfaces)@),
                self@.marks(views(old(interfaces)@)),
            ),
    {
        let mut marks: Vec<bool> = Vec::new();
        let mut i: usize = 0;
        let ghost items = views(interfaces@);
        while i < interfaces.len()
            invariant
                items == views(interfaces@),
                i <= interfaces@.len(),
                marks@ == self@.marks(items).take(i as int),
            decreases interfaces@.len() - i,
        {
            marks.push(self.is_used(interfaces[i].name.as_str()));
            proof {
                assert(self@.marks(items).take(i + 1) =~= self@.marks(items).take(i as int).push(
                    self@.marks(items)[i as int],
                ));
            }
            i = i + 1;
        }
        proof {
            assert(marks@ =~= self@.marks(items));
        }
        keep_marked(interfaces, &marks);
    }
}

/// What is kept was there and passes, and what was there and passes is kept.
pub proof fn law_filter_keeps_what_passes(
    filter: FilterInfo,
    interfaces: Seq<InterfaceInfo>,
    interface: InterfaceInfo,
)
    ensures
        marked(interfaces, filter.marks(interfaces)).contains(interface) <==> interfaces.contains(
            interface,
        ) && filter.passes(interface.name),
    decreases interfaces.len(),
{
    let kept = marked(interfaces, filter.marks(interfaces));
    if interfaces.len() > 0 {
        let first = interfaces[0];
        let rest = interfaces.drop_first();
        let kept_rest = marked(rest, filter.marks(rest));
        law_filter_keeps_what_passes(filter, rest, interface);
        assert(filter.marks(interfaces).drop_first() =~= filter.marks(rest));
        assert(interfaces =~= seq![first] + rest);
        assert(interfaces.contains(interface) <==> interface == first || rest.contains(
            interface,
        )) by {
            if rest.contains(interface) {
                let k = choose|k: int| 0 <= k < rest.len() && rest[k] == interface;
                assert(interfaces[k + 1] == interface);
            }
            if interfaces.contains(interface) && interface != first {
                let k = choose|k: int| 0 <= k < interfaces.len() && interfaces[k] == interface;
                assert(rest[k - 1] == interface);
            }
        }
        if filter.passes(first.name) {
            assert(kept == seq![first] + kept_rest);
            assert(kept.contains(interface) <==> interface == first || kept_rest.contains(
                interface,
            )) by {
                if kept_rest.contains(interface) {
                    let k = choose|k: int| 0 <= k < kept_rest.len() && kept_rest[k] == interface;
                    assert(kept[k + 1] == interface);
                }
                if kept.contains(interface) && interface != first {
                    let k = choose|k: int| 0 <= k < kept.len() && kept[k] == interface;
                    assert(kept_rest[k - 1] == interface);
                }
                assert(kept[0] == first);
            }
        }
    }
}

/// Items are taken one by one.
pub proof fn law_views<T: View>(items: Seq<T>, i: int)
    ensures
        views(items).len() == items.len(),
        0 <= i < items.len() ==> views(items)[i] == items[i]@,
{
}

/// An interface is taken by its name and its addresses.
pub proof fn law_interface_view(interface: NetworkInterface)
    ensures
        interface@.name == interface.name@,
        interface@.addresses == interface.addresses@,
{
}

/// An address belongs to this machine just where it is an address of one of its
/// interfaces, at whatever place.
pub proof fn law_belongs(address: Ipv4Address, interfaces: Seq<InterfaceInfo>, i: int, j: int)
    ensures
        0 <= i < interfaces.len() && 0 <= j < interfaces[i].addresses.len()
            && interfaces[i].addresses[j] == IpAddress::V4(address) ==> belongs(
            address,
            interfaces,
        ),
        belongs(address, interfaces) ==> exists|k: int, m: int|
            0 <= k < interfaces.len() && 0 <= m < interfaces[k].addresses.len()
                && #[trigger] interfaces[k].addresses[m] == IpAddress::V4(address),
{
    if 0 <= i < interfaces.len() && 0 <= j < interfaces[i].addresses.len()
        && interfaces[i].addresses[j] == IpAddress::V4(address) {
        assert(interfaces[i].addresses.contains(IpAddress::V4(address)));
    }
    if belongs(address, interfaces) {
        let k = choose|k: int|
            0 <= k < interfaces.len() && #[trigger] interfaces[k].addresses.contains(
                IpAddress::V4(address),
            );
        let m = choose|m: int|
            0 <= m < interfaces[k].addresses.len() && interfaces[k].addresses[m] == IpAddress::V4(
                address,
            );
        assert(interfaces[k].addresses[m] == IpAddress::V4(address));
    }
}

/// Each pattern gets anchors of its own, and the patterns become alternatives
/// in their order.
pub proof fn law_anchored_patterns(patterns: Seq<Seq<char>>, pattern: Seq<char>)
    ensures
        any_anchored(seq![pattern]) == seq!['^'] + pattern + seq!['$'],
        patterns.len() > 0 ==> any_anchored(patterns.push(pattern)) == any_anchored(patterns)
            + seq!['|'] + (seq!['^'] + pattern + seq!['$']),
{
    let bar = seq!['|'];
    let own = seq!['^'] + pattern + seq!['$'];
    crate::text::law_joined(Seq::empty(), own, bar);
    crate::text::law_joined(all_anchored(patterns), own, bar);
    assert(all_anchored(seq![pattern]) =~= seq![own]);
    assert(all_anchored(patterns.push(pattern)) =~= all_anchored(patterns).push(own));
}

/// Patterns are used where there are any and they make a regular expression.
pub proof fn law_patterns_in_use(patterns: Seq<Seq<char>>)
    ensures
        patterns.len() == 0 ==> compiled(patterns) is None,
        patterns.len() > 0 && is_regex(any_anchored(patterns)) ==> compiled(patterns) == Some(
            any_anchored(patterns),
        ),
        !is_regex(any_anchored(patterns)) ==> compiled(patterns) is None,
{
}

/// An interface is used unless there are patterns to allow and it matches none,
/// or there are patterns to ignore and it matches one.
pub proof fn law_interfaces_in_use(allow: Seq<char>, ignore: Seq<char>, name: Seq<char>)
    ensures
        (FilterInfo { allow: None, ignore: None }).passes(name),
        (FilterInfo { allow: Some(allow), ignore: None }).passes(name) <==> regex_matches(
            allow,
            name,
        ),
        (FilterInfo { allow: None, ignore: Some(ignore) }).passes(name) <==> !regex_matches(
            ignore,
            name,
        ),
        (FilterInfo { allow: Some(allow), ignore: Some(ignore) }).passes(name) <==> regex_matches(
            allow,
            name,
        ) && !regex_matches(ignore, name),
{
}

/// The interfaces that are used are kept in their order, each as often as it
/// was there.
pub proof fn law_filter_keeps_the_order(
    filter: FilterInfo,
    interfaces: Seq<InterfaceInfo>,
    interface: InterfaceInfo,
)
    ensures
        ({
            let longer = interfaces.push(interface);
            let kept = marked(interfaces, filter.marks(interfaces));
            marked(longer, filter.marks(longer)) == if filter.passes(interface.name) {
                kept.push(interface)
            } else {
                kept
            }
        }),
        marked(Seq::<InterfaceInfo>::empty(), filter.marks(Seq::empty())).len() == 0,
{
    let longer = interfaces.push(interface);
    lemma_marked_push(
        interfaces,
        filter.marks(interfaces),
        interface,
        filter.passes(interface.name),
    );
    assert(filter.marks(longer) =~= filter.marks(interfaces).push(filter.passes(interface.name)));
}

/// Of some items those that are marked are kept, in their order.
pub proof fn law_marked_are_kept<T>(items: Seq<T>, marks: Seq<bool>, item: T)
    requires
        items.len() == marks.len(),
    ensures
        marked(Seq::<T>::empty(), Seq::empty()).len() == 0,
        marked(items.push(item), marks.push(true)) == marked(items, marks).push(item),
        marked(items.push(item), marks.push(false)) == marked(items, marks),
{
    lemma_marked_push(items, marks, item, true);
    lemma_marked_push(items, marks, item, false);
}

} // verus!
