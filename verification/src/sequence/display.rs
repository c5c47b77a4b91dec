//! Labels for the events and shapes of a dump. Each object gets a number when
//! it is first printed, counting from one, and keeps it.

use vstd::prelude::*;
use vstd::string::StringExecFns;
use std::collections::HashMap;
use std::sync::Arc;

verus! {

/// The character of a digit.
pub open spec fn digit_char(d: nat) -> char {
    if d == 0 {
        '0'
    } else if d == 1 {
        '1'
    } else if d == 2 {
        '2'
    } else if d == 3 {
        '3'
    } else if d == 4 {
        '4'
    } else if d == 5 {
        '5'
    } else if d == 6 {
        '6'
    } else if d == 7 {
        '7'
    } else if d == 8 {
        '8'
    } else {
        '9'
    }
}

/// The decimal digits of a number, without leading zeros.
pub open spec fn decimal(n: nat) -> Seq<char>
    decreases n,
{
    if n < 10 {
        seq![digit_char(n)]
    } else {
        decimal(n / 10).push(digit_char(n % 10))
    }
}

/// `count` spaces.
pub open spec fn spaces(count: int) -> Seq<char> {
    Seq::new(count as nat, |i: int| ' ')
}

/// The label of a number: its digits, with spaces before them where they are
/// fewer than three.
pub open spec fn label(n: nat) -> Seq<char> {
    if decimal(n).len() < 3 {
        spaces(3 - decimal(n).len()) + decimal(n)
    } else {
        decimal(n)
    }
}

/// The label that stands where there is no object.
pub open spec fn no_label() -> Seq<char> {
    seq![' ', ' ', '-']
}

/// The text of one digit.
fn digit_text(d: usize) -> (text: &'static str)
    requires
        d < 10,
    ensures
        text@ == seq![digit_char(d as nat)],
{
    proof {
        reveal_strlit("0");
        reveal_strlit("1");
        reveal_strlit("2");
        reveal_strlit("3");
        reveal_strlit("4");
        reveal_strlit("5");
        reveal_strlit("6");
        reveal_strlit("7");
        reveal_strlit("8");
        reveal_strlit("9");
    }
    let text: &'static str = if d == 0 {
        "0"
    } else if d == 1 {
        "1"
    } else if d == 2 {
        "2"
    } else if d == 3 {
        "3"
    } else if d == 4 {
        "4"
    } else if d == 5 {
        "5"
    } else if d == 6 {
        "6"
    } else if d == 7 {
        "7"
    } else if d == 8 {
        "8"
    } else {
        "9"
    };
    assert(text@ =~= seq![digit_char(d as nat)]);
    text
}

/// The digits of a number.
pub fn decimal_text(n: usize) -> (text: String)
    ensures
        text@ == decimal(n as nat),
    decreases n,
{
    if n < 10 {
        digit_text(n).to_owned()
    } else {
        let mut text: String = decimal_text(n / 10);
        text.append(digit_text(n % 10));
        assert(text@ =~= decimal(n as nat));
        text
    }
}

/// The label of a number.
pub fn label_text(n: usize) -> (text: String)
    ensures
        text@ == label(n as nat),
{
    let digits: String = decimal_text(n);
    proof {
        reveal_strlit("  ");
        reveal_strlit(" ");
        reveal_strlit("");
        lemma_decimal_len(n as nat);
    }
    let pad: &'static str = if n < 10 {
        "  "
    } else if n < 100 {
        " "
    } else {
        ""
    };
    assert(n < 100 ==> pad@ =~= spaces(3 - decimal(n as nat).len()));
    assert(n >= 100 ==> pad@ =~= Seq::<char>::empty());
    let text: String = pad.to_owned().concat(digits.as_str());
    assert(text@ =~= label(n as nat));
    text
}

/// How many digits a number has, as far as labels care.
proof fn lemma_decimal_len(n: nat)
    ensures
        n < 10 ==> decimal(n).len() == 1,
        10 <= n < 100 ==> decimal(n).len() == 2,
        n >= 100 ==> decimal(n).len() >= 3,
    decreases n,
{
    if n >= 10 {
        lemma_decimal_len(n / 10);
    }
}

/// The numbers given to the objects of one kind, and the objects in the
/// order of their numbers. An object is known by a key that its owner
/// chooses: two handles to the same object have the same key.
pub struct RefPrinter<T> {
    numbers: HashMap<usize, usize>,
    objects: Vec<Arc<T>>,
}

impl<T> RefPrinter<T> {
    /// The number of each key that was printed.
    pub closed spec fn view(&self) -> Map<usize, usize> {
        self.numbers@
    }

    /// The objects that were printed, in the order of their numbers.
    pub closed spec fn printed(&self) -> Seq<Arc<T>> {
        self.objects@
    }

    /// The numbers that were given are one to the count of the objects.
    pub closed spec fn wf(&self) -> bool {
        &&& self.numbers@.dom().finite()
        &&& self.numbers@.len() == self.objects@.len()
        &&& forall|key: usize|
            self.numbers@.contains_key(key) ==> 1 <= #[trigger] self.numbers@[key]
                <= self.objects@.len()
    }

    /// The number that `key` has, or gets when it is printed next.
    pub open spec fn number_of(&self, key: usize) -> nat {
        if self@.contains_key(key) {
            self@[key] as nat
        } else {
            self@.len() + 1
        }
    }

    pub fn new() -> (printer: Self)
        ensures
            printer.wf(),
            printer@ == Map::<usize, usize>::empty(),
            printer.printed() == Seq::<Arc<T>>::empty(),
    {
        RefPrinter { numbers: HashMap::new(), objects: Vec::new() }
    }

    /// The objects that were printed, in the order of their numbers.
    pub fn objects(&self) -> (objects: &Vec<Arc<T>>)
        ensures
            objects@ == self.printed(),
    {
        &self.objects
    }

    /// How many objects were printed.
    pub fn len(&self) -> (len: usize)
        requires
            self.wf(),
        ensures
            len == self@.len(),
    {
        self.objects.len()
    }

    /// The label of the object `rc`, which is known by `key`. An object that
    /// was not printed before gets the next number.
    pub fn print(&mut self, key: usize, rc: &Arc<T>) -> (text: String)
        requires
            old(self).wf(),
            old(self)@.len() < usize::MAX,
        ensures
            final(self).wf(),
            text@ == label(old(self).number_of(key)),
            final(self)@ == old(self)@.insert(key, old(self).number_of(key) as usize),
            final(self).printed() == if old(self)@.contains_key(key) {
                old(self).printed()
            } else {
                old(self).printed().push(*rc)
            },
    {
        broadcast use vstd::std_specs::hash::group_hash_axioms;

        let known: Option<usize> = match self.numbers.get(&key) {
            Some(number) => Some(*number),
            None => None,
        };
        match known {
            Some(number) => {
                assert(self.numbers@ =~= self.numbers@.insert(key, number));
                label_text(number)
            },
            None => {
                let number: usize = self.numbers.len() + 1;
                self.numbers.insert(key, number);
                self.objects.push(rc.clone());
                label_text(number)
            },
        }
    }

    /// The label of an object that may be absent.
    pub fn print_opt(&mut self, key: usize, opt_rc: &Option<Arc<T>>) -> (text: String)
        requires
            old(self).wf(),
            *opt_rc is Some ==> old(self)@.len() < usize::MAX,
        ensures
            final(self).wf(),
            match *opt_rc {
                Some(rc) => {
                    &&& text@ == label(old(self).number_of(key))
                    &&& final(self)@ == old(self)@.insert(
                        key,
                        old(self).number_of(key) as usize,
                    )
                    &&& final(self).printed() == if old(self)@.contains_key(key) {
                        old(self).printed()
                    } else {
                        old(self).printed().push(rc)
                    }
                },
                None => {
                    &&& text@ == no_label()
                    &&& final(self)@ == old(self)@
                    &&& final(self).printed() == old(self).printed()
                },
            },
    {
        match opt_rc {
            Some(rc) => self.print(key, rc),
            None => {
                proof {
                    reveal_strlit("  -");
                }
                let text: String = "  -".to_owned();
                assert(text@ =~= no_label());
                text
            },
        }
    }
}

} // verus!
