//! The registry of host-side tools a guest may call: handlers by name, and
//! middleware hooks that run before every call.
use vstd::prelude::*;

verus! {

/// Tool handlers by name, and the hooks run before each dispatch.
pub struct ToolRegistry<H, M> {
    tools: Vec<(String, H)>,
    middleware: Vec<M>,
}

/// Why a dispatch did not reach a handler, or the handler's own error.
pub enum DispatchError<E> {
    /// A middleware hook refused the call.
    Hook(E),
    /// No tool is registered under the name.
    UnknownTool(String),
    /// The handler failed.
    Handler(E),
}

/// The mathematical value of a [`ToolRegistry`]: the registrations in
/// order, and the hooks in order.
pub struct RegistryView<H, M> {
    pub tools: Seq<(Seq<char>, H)>,
    pub middleware: Seq<M>,
}

impl<H, M> View for ToolRegistry<H, M> {
    type V = RegistryView<H, M>;

    closed spec fn view(&self) -> RegistryView<H, M> {
        RegistryView {
            tools: self.tools@.map_values(|p: (String, H)| (p.0@, p.1)),
            middleware: self.middleware@,
        }
    }
}

/// The position of the handler registered last under `name`: a later
/// registration replaces an earlier one.
pub open spec fn last_named<H>(tools: Seq<(Seq<char>, H)>, name: Seq<char>) -> Option<int>
    decreases tools.len(),
{
    if tools.len() == 0 {
        None
    } else if tools.last().0 == name {
        Some(tools.len() - 1)
    } else {
        last_named(tools.drop_last(), name)
    }
}

/// The last registration under a name lies in the list and carries it.
pub proof fn lemma_last_named_in_range<H>(tools: Seq<(Seq<char>, H)>, name: Seq<char>)
    ensures
        last_named(tools, name) matches Some(k) ==> 0 <= k < tools.len() && tools[k].0 == name
            && forall|j: int| k < j < tools.len() ==> #[trigger] tools[j].0 != name,
        last_named(tools, name) is None ==> forall|j: int|
            0 <= j < tools.len() ==> #[trigger] tools[j].0 != name,
    decreases tools.len(),
{
    if tools.len() > 0 {
        let d = tools.drop_last();
        lemma_last_named_in_range(d, name);
        if tools.last().0 != name {
            assert(last_named(tools, name) == last_named(d, name));
            assert forall|j: int| 0 <= j < tools.len() && last_named(d, name) is None implies #[trigger] tools[j].0
                != name by {
                if j < d.len() {
                    assert(tools[j] == d[j]);
                }
            }
            if last_named(d, name) is Some {
                let k = last_named(d, name)->0;
                assert(tools[k] == d[k]);
                assert forall|j: int| k < j < tools.len() implies #[trigger] tools[j].0 != name by {
                    if j < d.len() {
                        assert(tools[j] == d[j]);
                    }
                }
            }
        }
    }
}

/// A registration under a name replaces what the name reached before, and
/// leaves every other name as it was.
pub proof fn lemma_register_replaces<H>(
    tools: Seq<(Seq<char>, H)>,
    name: Seq<char>,
    handler: H,
    other: Seq<char>,
)
    requires
        other != name,
    ensures
        last_named(tools.push((name, handler)), name) == Some(tools.len() as int),
        last_named(tools.push((name, handler)), other) == last_named(tools, other),
{
    assert(tools.push((name, handler)).drop_last() =~= tools);
}

/// Every hook of `hooks` let the call through.
pub open spec fn hooks_passed<A, E, M: Fn(&str, &A) -> Result<(), E>>(
    hooks: Seq<M>,
    name: &str,
    args: &A,
) -> bool {
    forall|j: int| 0 <= j < hooks.len() ==> call_ensures(hooks[j], (name, args), Ok::<(), E>(()))
}

/// The message a dispatch to an unknown tool reports.
pub fn unknown_tool_message(name: &str) -> (s: String)
    ensures
        s@ == "unknown tool: "@ + name@,
{
    let mut s = "unknown tool: ".to_owned();
    s.append(name);
    s
}

impl<H, M> Default for ToolRegistry<H, M> {
    fn default() -> (r: Self)
        ensures
            r@.tools == Seq::<(Seq<char>, H)>::empty(),
            r@.middleware == Seq::<M>::empty(),
    {
        Self::new()
    }
}

impl<H, M> ToolRegistry<H, M> {
    /// An empty registry.
    pub fn new() -> (r: Self)
        ensures
            r@.tools == Seq::<(Seq<char>, H)>::empty(),
            r@.middleware == Seq::<M>::empty(),
    {
        let r = ToolRegistry { tools: Vec::new(), middleware: Vec::new() };
        assert(r@.tools =~= Seq::<(Seq<char>, H)>::empty());
        r
    }

    /// Register a tool handler under `name`, replacing any earlier one.
    pub fn register(&mut self, name: &str, handler: H)
        ensures
            final(self)@.tools == old(self)@.tools.push((name@, handler)),
            final(self)@.middleware == old(self)@.middleware,
    {
        let ghost h = handler;
        self.tools.push((name.to_owned(), handler));
        assert(self@.tools =~= old(self)@.tools.push((name@, h)));
    }

    /// Add a middleware hook, run after those added before it.
    pub fn add_middleware(&mut self, hook: M)
        ensures
            final(self)@.tools == old(self)@.tools,
            final(self)@.middleware == old(self)@.middleware.push(hook),
    {
        self.middleware.push(hook);
    }

    /// Find the handler registered last under `name`.
    fn find(&self, name: &str) -> (r: Option<usize>)
        ensures
            match last_named(self@.tools, name@) {
                Some(k) => r == Some(k as usize),
                None => r is None,
            },
    {
        let wanted = name.to_owned();
        let mut i: usize = self.tools.len();
        assert(self@.tools.take(i as int) =~= self@.tools);
        while i > 0
            invariant
                i <= self.tools@.len(),
                wanted@ == name@,
                last_named(self@.tools, name@) == last_named(self@.tools.take(i as int), name@),
            decreases i,
        {
            assert(self@.tools.take(i as int).drop_last() =~= self@.tools.take(i - 1));
            assert(self@.tools.take(i as int).last() == self@.tools[i - 1]);
            assert(self@.tools[i - 1].0 == self.tools@[i - 1].0@);
            if self.tools[i - 1].0 == wanted {
                return Some(i - 1);
            }
            i = i - 1;
        }
        None
    }

    /// Dispatch a call: run the hooks in order, stopping at the first that
    /// refuses; then call the handler registered last under `name`, or
    /// report the tool unknown.
    pub fn dispatch<A, R, E>(&self, name: &str, args: A) -> (r: Result<R, DispatchError<E>>) where
        H: Fn(A) -> Result<R, E>,
        M: Fn(&str, &A) -> Result<(), E>,

        requires
            forall|j: int|
                0 <= j < self@.middleware.len() ==> call_requires(
                    #[trigger] self@.middleware[j],
                    (name, &args),
                ),
            forall|i: int|
                0 <= i < self@.tools.len() ==> call_requires(#[trigger] self@.tools[i].1, (args,)),
        ensures
            r matches Err(DispatchError::Hook(e)) ==> exists|j: int|
                0 <= j < self@.middleware.len() && hooks_passed::<A, E, M>(
                    self@.middleware.take(j),
                    name,
                    &args,
                ) && call_ensures(self@.middleware[j], (name, &args), Err::<(), E>(e)),
            !(r matches Err(DispatchError::Hook(_))) ==> hooks_passed::<A, E, M>(
                self@.middleware,
                name,
                &args,
            ),
            !(r matches Err(DispatchError::Hook(_))) ==> match last_named(self@.tools, name@) {
                None => r matches Err(DispatchError::UnknownTool(n)) && n@ == name@,
                Some(k) => match r {
                    Ok(v) => call_ensures(self@.tools[k].1, (args,), Ok::<R, E>(v)),
                    Err(DispatchError::Handler(e)) => call_ensures(
                        self@.tools[k].1,
                        (args,),
                        Err::<R, E>(e),
                    ),
                    _ => false,
                },
            },
    {
        let mut j: usize = 0;
        while j < self.middleware.len()
            invariant
                j <= self@.middleware.len(),
                forall|k: int|
                    0 <= k < self@.middleware.len() ==> call_requires(
                        #[trigger] self@.middleware[k],
                        (name, &args),
                    ),
                hooks_passed::<A, E, M>(self@.middleware.take(j as int), name, &args),
            decreases self@.middleware.len() - j,
        {
            let outcome = (self.middleware[j])(name, &args);
            assert(call_ensures(self@.middleware[j as int], (name, &args), outcome));
            match outcome {
                Ok(u) => {
                    proof {
                        assert(outcome == Ok::<(), E>(()));
                        let t = self@.middleware.take(j + 1);
                        let t0 = self@.middleware.take(j as int);
                        assert forall|k: int| 0 <= k < t.len() implies call_ensures(
                            t[k],
                            (name, &args),
                            Ok::<(), E>(()),
                        ) by {
                            if k < j {
                                assert(t[k] == t0[k]);
                                assert(call_ensures(t0[k], (name, &args), Ok::<(), E>(())));
                            } else {
                                assert(t[k] == self@.middleware[j as int]);
                            }
                        }
                    }
                },
                Err(e) => {
                    return Err(DispatchError::Hook(e));
                },
            }
            j = j + 1;
        }
        assert(self@.middleware.take(self@.middleware.len() as int) =~= self@.middleware);
        let found = self.find(name);
        let count = self.tools.len();
        proof {
            lemma_last_named_in_range(self@.tools, name@);
            assert(self@.tools.len() == count);
        }
        match found {
            Some(k) => {
                proof {
                    lemma_last_named_in_range(self@.tools, name@);
                    assert(self@.tools[k as int].1 == self.tools@[k as int].1);
                }
                let ghost a = args;
                let result = (self.tools[k].1)(args);
                assert(call_ensures(self@.tools[k as int].1, (a,), result));
                assert(last_named(self@.tools, name@) == Some(k as int));
                match result {
                    Ok(v) => Ok(v),
                    Err(e) => Err(DispatchError::Handler(e)),
                }
            },
            None => {
                let n = name.to_owned();
                assert(n@ == name@);
                Err(DispatchError::UnknownTool(n))
            },
        }
    }
}

} // verus!
