use vstd::prelude::*;

verus! {

/// Applies optional settings to a value one by one, skipping those that are absent.
pub struct MessageBuilder<T>(T);

impl<T> MessageBuilder<T> {
    /// The value being built.
    pub closed spec fn value(&self) -> T {
        self.0
    }

    /// Starts from `t`.
    pub fn new(t: T) -> (r: MessageBuilder<T>)
        ensures
            r.value() == t,
    {
        MessageBuilder(t)
    }

    /// Applies `fun` to the setting and the value when the setting is present; leaves the
    /// value as it is otherwise.
    pub fn with<V, F: Fn(V, T) -> T>(self, opt: Option<V>, fun: F) -> (r: Self)
        requires
            opt is Some ==> fun.requires((opt->0, self.value())),
        ensures
            opt is None ==> r.value() == self.value(),
            opt is Some ==> fun.ensures((opt->0, self.value()), r.value()),
    {
        match opt {
            Some(v) => MessageBuilder(fun(v, self.0)),
            None => self,
        }
    }

    /// The value built.
    pub fn build(self) -> (r: T)
        ensures
            r == self.value(),
    {
        self.0
    }
}

} // verus!
