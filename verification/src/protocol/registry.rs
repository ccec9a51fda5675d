//! Which command stands under which name.

use crate::protocol::data::Request;
use crate::text::same;
use crate::transport::control::PeerId;
use vstd::prelude::*;

verus! {

/// Who asked for a command.
#[derive(Debug, Clone, Copy, PartialEq, Eq)]
pub struct CommandContext {
    pub peer_id: PeerId,
}

/// The commands of a session, by name. What carries a command out is of type `H`.
pub struct CommandRegistry<H> {
    pub handlers: Vec<(String, H)>,
}

/// The map that a list of named handlers stands for: the last of a name counts.
pub open spec fn handlers_of<H>(handlers: Seq<(String, H)>) -> Map<Seq<char>, H>
    decreases handlers.len(),
{
    if handlers.len() == 0 {
        Map::empty()
    } else {
        handlers_of(handlers.drop_last()).insert(handlers.last().0@, handlers.last().1)
    }
}

impl<H> View for CommandRegistry<H> {
    type V = Map<Seq<char>, H>;

    open spec fn view(&self) -> Map<Seq<char>, H> {
        handlers_of(self.handlers@)
    }
}

/// The answer to a request for a command that is not there.
pub open spec fn not_found_text(command: Seq<char>) -> Seq<char> {
    "command not found: "@ + command
}

impl<H> CommandRegistry<H> {
    /// No commands.
    pub fn new() -> (r: Self)
        ensures
            r@ == Map::<Seq<char>, H>::empty(),
    {
        CommandRegistry { handlers: Vec::new() }
    }

    /// Puts a command under a name; one that was there is replaced.
    pub fn register(&mut self, name: &str, handler: H)
        ensures
            final(self)@ == old(self)@.insert(name@, handler),
    {
        self.handlers.push((name.to_string(), handler));
        assert(self.handlers@.drop_last() =~= old(self).handlers@);
    }

    /// The command that a request asks for.
    pub fn handle(&self, request: &Request) -> (r: Result<&H, String>)
        ensures
            r is Ok <==> self@.contains_key(request.command@),
            r matches Ok(handler) ==> *handler == self@[request.command@],
            r matches Err(err) ==> err@ == not_found_text(request.command@),
    {
        let ghost all = self.handlers@;
        let mut i: usize = self.handlers.len();
        assert(all.take(i as int) =~= all);
        while i > 0
            invariant
                i <= self.handlers@.len(),
                all == self.handlers@,
                self@.contains_key(request.command@) == handlers_of(
                    all.take(i as int),
                ).contains_key(request.command@),
                self@.contains_key(request.command@) ==> self@[request.command@] == handlers_of(
                    all.take(i as int),
                )[request.command@],
            decreases i,
        {
            i -= 1;
            proof {
                assert(all.take(i + 1).drop_last() =~= all.take(i as int));
                assert(all.take(i + 1).last() == all[i as int]);
            }
            if same(self.handlers[i].0.as_str(), request.command.as_str()) {
                return Ok(&self.handlers[i].1);
            }
        }
        let mut text = "command not found: ".to_string();
        text.append(request.command.as_str());
        Err(text)
    }
}

/// Under each name the handler that was registered last is found, however many there are; under a
/// name that nobody registered none is.
pub proof fn law_last_registration_of_a_name_counts<H>(
    before: Seq<(String, H)>,
    name: String,
    handler: H,
    after: Seq<(String, H)>,
)
    requires
        forall|i: int| 0 <= i < after.len() ==> (#[trigger] after[i]).0@ != name@,
    ensures
        handlers_of(before.push((name, handler)) + after).contains_pair(name@, handler),
        !handlers_of(after).contains_key(name@),
    decreases after.len(),
{
    let whole = before.push((name, handler)) + after;
    if after.len() == 0 {
        assert(whole =~= before.push((name, handler)));
        assert(whole.last() == (name, handler));
    } else {
        let rest = after.drop_last();
        assert(after[after.len() - 1].0@ != name@);
        assert forall|i: int| 0 <= i < rest.len() implies (#[trigger] rest[i]).0@ != name@ by {
            assert(rest[i] == after[i]);
        }
        law_last_registration_of_a_name_counts(before, name, handler, rest);
        assert(whole.drop_last() =~= before.push((name, handler)) + rest);
        assert(whole.last() == after.last());
    }
}

/// A command that is not there is named in the answer.
pub proof fn law_missing_command_is_named<H>(command: Seq<char>, registry: CommandRegistry<H>)
    ensures
        not_found_text(command) == "command not found: "@ + command,
        registry@ == handlers_of(registry.handlers@),
{
}

/// A command that was registered is found under its name from then on, and the others stay where they
/// are; a request for one that is not there is told so.
pub proof fn law_registered_command_is_found<H>(
    registry: &mut CommandRegistry<H>,
    name: &str,
    handler: H,
    other: Seq<char>,
    request: &Request,
    now: CommandRegistry<H>,
    found: Result<&H, String>,
)
    ensures
        call_ensures(CommandRegistry::<H>::register, (registry, name, handler), ()) ==> {
            &&& final(registry)@.contains_pair(name@, handler)
            &&& other != name@ ==> final(registry)@.contains_key(other) == old(registry)@.contains_key(
                other,
            ) && final(registry)@[other] == old(registry)@[other]
        },
        call_ensures(CommandRegistry::<H>::handle, (&now, request), found) ==> match found {
            Ok(handler) => now@.contains_pair(request.command@, *handler),
            Err(err) => !now@.contains_key(request.command@) && err@ == "command not found: "@
                + request.command@,
        },
        call_ensures(CommandRegistry::<H>::new, (), now) ==> !now@.contains_key(other),
{
}

} // verus!
