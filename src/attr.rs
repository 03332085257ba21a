use vstd::prelude::*;
use crate::function::{ReactiveFunction, SharedReactiveFunction};
use crate::html::{decimal, push_decimal};

verus! {

/// One attribute of a live element: its interned name and its value.
#[derive(Clone, Copy, PartialEq, Eq, Structural, Debug)]
pub struct Attr {
    pub key: u64,
    pub value: u64,
}

/// Whether some attribute of `s` has name `key`.
pub open spec fn has_key(s: Seq<Attr>, key: u64) -> bool {
    exists|i: int| 0 <= i < s.len() && #[trigger] s[i].key == key
}

/// No two attributes of `s` share a name.
pub open spec fn unique_keys(s: Seq<Attr>) -> bool {
    forall|i: int, j: int| 0 <= i < s.len() && 0 <= j < s.len() && i != j ==> s[i].key != s[j].key
}

/// The index of the attribute named `key` (meaningful where `has_key(s, key)`).
pub open spec fn key_index(s: Seq<Attr>, key: u64) -> int {
    choose|i: int| 0 <= i < s.len() && #[trigger] s[i].key == key
}

/// The attributes after `key` is set to `value`: in place where it is
/// present, at the end where it is not.
pub open spec fn with_attr(s: Seq<Attr>, key: u64, value: u64) -> Seq<Attr> {
    if has_key(s, key) {
        s.update(key_index(s, key), Attr { key, value })
    } else {
        s.push(Attr { key, value })
    }
}

/// A live element, as far as its attributes go.
pub struct Element {
    pub attrs: Vec<Attr>,
}

impl Element {
    /// Attribute names are unique.
    pub open spec fn wf(&self) -> bool {
        unique_keys(self.attrs@)
    }

    pub fn new() -> (r: Element)
        ensures
            r.wf(),
            r.attrs@ == Seq::<Attr>::empty(),
    {
        Element { attrs: Vec::new() }
    }

    /// The value of the attribute named `key`, if there is one.
    pub fn get(&self, key: u64) -> (r: Option<u64>)
        requires
            self.wf(),
        ensures
            r.is_none() <==> !has_key(self.attrs@, key),
            r matches Some(v) ==> v == self.attrs@[key_index(self.attrs@, key)].value,
    {
        match self.find(key) {
            Some(i) => Some(self.attrs[i].value),
            None => None,
        }
    }

    fn find(&self, key: u64) -> (r: Option<usize>)
        requires
            self.wf(),
        ensures
            r.is_none() <==> !has_key(self.attrs@, key),
            r matches Some(i) ==> i < self.attrs@.len() && key_index(self.attrs@, key) == i,
    {
        let mut i: usize = 0;
        while i < self.attrs.len()
            invariant
                self.wf(),
                i <= self.attrs@.len(),
                forall|j: int| 0 <= j < i ==> #[trigger] self.attrs@[j].key != key,
            decreases self.attrs@.len() - i,
        {
            if self.attrs[i].key == key {
                assert(has_key(self.attrs@, key));
                return Some(i);
            }
            i = i + 1;
        }
        None
    }

    /// Sets the attribute named `key` to `value`.
    pub fn set(&mut self, key: u64, value: u64)
        requires
            old(self).wf(),
        ensures
            final(self).wf(),
            final(self).attrs@ == with_attr(old(self).attrs@, key, value),
    {
        let ghost s = self.attrs@;
        match self.find(key) {
            Some(i) => {
                self.attrs.set(i, Attr { key, value });
                assert forall|a: int, b: int|
                    0 <= a < self.attrs@.len() && 0 <= b < self.attrs@.len() && a != b implies
                    self.attrs@[a].key != self.attrs@[b].key by {
                    assert(self.attrs@[a].key == s[a].key);
                    assert(self.attrs@[b].key == s[b].key);
                }
            },
            None => {
                self.attrs.push(Attr { key, value });
                assert forall|a: int, b: int|
                    0 <= a < self.attrs@.len() && 0 <= b < self.attrs@.len() && a != b implies
                    self.attrs@[a].key != self.attrs@[b].key by {
                    if a < s.len() && b < s.len() {
                        assert(self.attrs@[a] == s[a]);
                        assert(self.attrs@[b] == s[b]);
                    } else if a < s.len() {
                        assert(self.attrs@[a] == s[a]);
                    } else {
                        assert(self.attrs@[b] == s[b]);
                    }
                }
            },
        }
    }
}

/// A render effect bound to one attribute of one element.
pub struct AttrEffect<F> {
    pub fun: F,
    pub key: u64,
    /// The value last given to the attribute.
    pub value: u64,
}

/// Retained state of a dynamic attribute: absent once disposed.
pub struct AttrEffectState<F>(pub Option<AttrEffect<F>>);

impl<F: ReactiveFunction<Output = u64>> AttrEffectState<F> {
    /// Runs the function once and sets the attribute `key` of `el` to its value.
    pub fn build(fun: F, el: &mut Element, key: u64) -> (r: Self)
        requires
            old(el).wf(),
        ensures
            final(el).wf(),
            final(el).attrs@ == with_attr(old(el).attrs@, key, fun.next_output()),
            r.0 matches Some(e) && e.fun.reads() == fun.reads() + 1 && e.key == key && e.value == fun.next_output()
                && e.fun.next_output() == fun.next_output(),
    {
        let mut fun = fun;
        let value = fun.invoke();
        el.set(key, value);
        AttrEffectState(Some(AttrEffect { fun, key, value }))
    }

    /// Runs the function once and takes the attribute `key`, already written
    /// in the markup of `el`, as its own: the element is left as it is.
    pub fn hydrate(fun: F, el: &Element, key: u64) -> (r: Self)
        ensures
            r.0 matches Some(e) && e.fun.reads() == fun.reads() + 1 && e.key == key && e.value == fun.next_output()
                && e.fun.next_output() == fun.next_output(),
    {
        let mut fun = fun;
        let value = fun.invoke();
        AttrEffectState(Some(AttrEffect { fun, key, value }))
    }

    /// The effect's run after a change of what its function reads: the
    /// function is called once more and the same attribute takes the value.
    pub fn rerun(&mut self, el: &mut Element)
        requires
            old(el).wf(),
        ensures
            final(el).wf(),
            old(self).0 is None ==> final(self).0 is None && final(el).attrs@ == old(el).attrs@,
            old(self).0 matches Some(e) ==> final(self).0 matches Some(e2) && e2.fun.reads() == e.fun.reads() + 1
                && e2.key == e.key && e2.value == e.fun.next_output()
                && e2.fun.next_output() == e.fun.next_output()
                && final(el).attrs@ == with_attr(old(el).attrs@, e.key, e.fun.next_output()),
    {
        match &mut self.0 {
            Some(e) => {
                let value = e.fun.invoke();
                e.value = value;
                el.set(e.key, value);
            },
            None => {},
        }
    }

    /// Replacing a dynamic attribute in place is left to the effect's own
    /// runs: the state is kept as it is.
    pub fn rebuild(fun: F, key: u64, state: &mut Self)
        ensures
            *final(state) == *old(state),
    {
    }
}

/// The form in which a dynamic attribute value is spread to several places:
/// its function behind a lock, not yet called.
pub fn into_cloneable<F: ReactiveFunction<Output = u64>>(fun: F) -> (r: SharedReactiveFunction<F>)
    ensures
        r.function == fun,
        r.function.reads() == fun.reads(),
        !r.poisoned,
{
    fun.into_shared()
}

/// The bytes ` name="value"` for an attribute whose value is `value`.
pub open spec fn attr_html(name: Seq<u8>, value: nat) -> Seq<u8> {
    seq![32u8] + name + seq![61u8, 34u8] + decimal(value) + seq![34u8]
}

/// Appends `bytes` to `buf`.
pub fn push_bytes(buf: &mut Vec<u8>, bytes: &[u8])
    ensures
        final(buf)@ == old(buf)@ + bytes@,
{
    let mut i: usize = 0;
    while i < bytes.len()
        invariant
            i <= bytes@.len(),
            buf@ == old(buf)@ + bytes@.subrange(0, i as int),
        decreases bytes@.len() - i,
    {
        buf.push(bytes[i]);
        i = i + 1;
        assert(bytes@.subrange(0, i as int) =~= bytes@.subrange(0, i - 1).push(bytes@[i - 1]));
    }
    assert(bytes@.subrange(0, i as int) =~= bytes@);
}

/// Writes the attribute named `name` with the function's current value; the
/// function is called once and no effect is kept.
pub fn attr_to_html<F: ReactiveFunction<Output = u64>>(fun: F, name: &[u8], buf: &mut Vec<u8>)
    ensures
        final(buf)@ == old(buf)@ + attr_html(name@, fun.next_output() as nat),
{
    let mut fun = fun;
    let value = fun.invoke();
    buf.push(32u8);
    push_bytes(buf, name);
    buf.push(61u8);
    buf.push(34u8);
    push_decimal(value, buf);
    buf.push(34u8);
    assert(buf@ =~= old(buf)@ + attr_html(name@, value as nat));
}

} // verus!
