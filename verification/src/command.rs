//! The register of the requests that wait for their response.

use crate::channel::{channel, same_channel, send, sent, HandleData};
use crate::client::Client;
use crate::types::AdsCommand;
use bytes::Bytes;
use tokio::sync::oneshot;
use vstd::prelude::*;

verus! {

/// The end of a request that its response is written to.
#[derive(Debug)]
pub struct CommandWriteHandle {
    pub cmd_type: AdsCommand,
    pub invoke_id: u32,
    pub data_sender: oneshot::Sender<HandleData>,
}

/// The end of a request that its response is read from.
#[derive(Debug)]
pub struct CommandReadHandle {
    pub cmd_type: AdsCommand,
    pub invoke_id: u32,
    pub data_receiver: oneshot::Receiver<HandleData>,
}

impl CommandWriteHandle {
    /// Sends a response to the request. Gives it back where nobody waits for it
    /// any more.
    pub fn write(self, data: HandleData) -> (r: Result<(), HandleData>)
        ensures
            sent(self.data_sender, data, r),
            r matches Err(back) ==> back == data,
    {
        send(self.data_sender, data)
    }
}

/// Where in the register the first handle with the invoke id stands; the length
/// of the register where there is none.
pub open spec fn command_index(register: Seq<CommandWriteHandle>, invoke_id: u32) -> int
    decreases register.len(),
{
    if register.len() == 0 || register[0].invoke_id == invoke_id {
        0
    } else {
        1 + command_index(register.drop_first(), invoke_id)
    }
}

/// The register without the handle at `index`, whose place the last one takes.
pub open spec fn without(register: Seq<CommandWriteHandle>, index: int) -> Seq<CommandWriteHandle> {
    register.update(index, register.last()).drop_last()
}

/// A handle that is found has the invoke id, and none before it has. Where none
/// is found, no handle has it.
pub proof fn law_command_index(register: Seq<CommandWriteHandle>, invoke_id: u32)
    ensures
        ({
            let index = command_index(register, invoke_id);
            &&& 0 <= index <= register.len()
            &&& index < register.len() ==> register[index].invoke_id == invoke_id
            &&& forall|i: int| 0 <= i < index ==> (#[trigger] register[i]).invoke_id != invoke_id
        }),
    decreases register.len(),
{
    if register.len() > 0 && register[0].invoke_id != invoke_id {
        let rest = register.drop_first();
        law_command_index(rest, invoke_id);
        let index = command_index(register, invoke_id);
        assert forall|i: int| 0 <= i < index implies (#[trigger] register[i]).invoke_id
            != invoke_id by {
            if i > 0 {
                assert(rest[i - 1] == register[i]);
            }
        }
    }
}

/// The index is settled by what it has to be.
proof fn lemma_command_index_is(register: Seq<CommandWriteHandle>, invoke_id: u32, index: int)
    requires
        0 <= index <= register.len(),
        index < register.len() ==> register[index].invoke_id == invoke_id,
        forall|i: int| 0 <= i < index ==> (#[trigger] register[i]).invoke_id != invoke_id,
    ensures
        command_index(register, invoke_id) == index,
{
    law_command_index(register, invoke_id);
}

/// Takes the first handle with the invoke id out of the register.
pub fn take_command_handle(
    cmd_register: &mut Vec<CommandWriteHandle>,
    invoke_id: u32,
) -> (taken: Option<CommandWriteHandle>)
    ensures
        ({
            let index = command_index(old(cmd_register)@, invoke_id);
            match taken {
                Some(handle) => {
                    &&& index < old(cmd_register)@.len()
                    &&& handle == old(cmd_register)@[index]
                    &&& final(cmd_register)@ == without(old(cmd_register)@, index)
                },
                None => {
                    &&& index == old(cmd_register)@.len()
                    &&& final(cmd_register)@ == old(cmd_register)@
                },
            }
        }),
{
    let mut i: usize = 0;
    while i < cmd_register.len()
        invariant
            i <= cmd_register@.len(),
            cmd_register@ == old(cmd_register)@,
            forall|k: int| 0 <= k < i ==> (#[trigger] cmd_register@[k]).invoke_id != invoke_id,
        decreases cmd_register@.len() - i,
    {
        if cmd_register[i].invoke_id == invoke_id {
            proof {
                lemma_command_index_is(cmd_register@, invoke_id, i as int);
            }
            return Some(cmd_register.swap_remove(i));
        }
        i = i + 1;
    }
    proof {
        lemma_command_index_is(cmd_register@, invoke_id, i as int);
    }
    None
}

impl Client<()> {
    /// Hands a response to the request with its invoke id, and takes the request
    /// out of the register. Gives `None` where no request has the id: the
    /// response expires. Else gives what sending it gave: the response itself
    /// where nobody waits for it any more.
    pub fn process_command(
        err_code: u32,
        invoke_id: u32,
        cmd_register: &mut Vec<CommandWriteHandle>,
        data: Bytes,
    ) -> (r: Option<Result<(), HandleData>>)
        ensures
            ({
                let index = command_index(old(cmd_register)@, invoke_id);
                let response = HandleData { ams_err: err_code, payload: data };
                match r {
                    Some(written) => {
                        &&& index < old(cmd_register)@.len()
                        &&& final(cmd_register)@ == without(old(cmd_register)@, index)
                        &&& sent(old(cmd_register)@[index].data_sender, response, written)
                        &&& written matches Err(back) ==> back == response
                    },
                    None => {
                        &&& index == old(cmd_register)@.len()
                        &&& final(cmd_register)@ == old(cmd_register)@
                    },
                }
            }),
    {
        match take_command_handle(cmd_register, invoke_id) {
            Some(handle) => Some(handle.write(HandleData { ams_err: err_code, payload: data })),
            None => None,
        }
    }
}

/// The invoke count that follows `count`: a 16 bit counter that starts again at
/// zero behind its greatest value.
pub open spec fn next_count(count: u16) -> u16 {
    ((count + 1) % 0x1_0000) as u16
}

impl<C> Client<C> {
    /// Registers a request: keeps the end that its response is written to, and
    /// gives the end that it is read from.
    pub fn register_command_handle(&mut self, invoke_id: u32, cmd: AdsCommand) -> (handle:
        CommandReadHandle)
        ensures
            handle.cmd_type == cmd,
            handle.invoke_id == invoke_id,
            final(self).cmd_handles@.len() == old(self).cmd_handles@.len() + 1,
            final(self).cmd_handles@.drop_last() == old(self).cmd_handles@,
            final(self).cmd_handles@.last().cmd_type == cmd,
            final(self).cmd_handles@.last().invoke_id == invoke_id,
            same_channel(final(self).cmd_handles@.last().data_sender, handle.data_receiver),
            *final(self) == (Client { cmd_handles: final(self).cmd_handles, ..*old(self) }),
            old(self).wf() ==> final(self).wf(),
    {
        let (sender, receiver) = channel();
        self.cmd_handles.push(
            CommandWriteHandle { cmd_type: cmd, invoke_id, data_sender: sender },
        );
        CommandReadHandle { cmd_type: cmd, invoke_id, data_receiver: receiver }
    }

    /// Gives a new invoke id.
    pub fn create_invoke_id(&mut self) -> (id: u32)
        ensures
            id == old(self).hdl_cnt,
            *final(self) == (Client { hdl_cnt: next_count(old(self).hdl_cnt), ..*old(self) }),
            old(self).wf() ==> final(self).wf(),
    {
        let id: u32 = self.hdl_cnt as u32;
        self.hdl_cnt = self.hdl_cnt.wrapping_add(1);
        id
    }
}

/// A request that was registered under an invoke id that no other request waits
/// under is the one that is found for it, and once it is taken out the register
/// is as it was before.
pub proof fn law_registered_request_is_found(
    register: Seq<CommandWriteHandle>,
    handle: CommandWriteHandle,
)
    requires
        forall|i: int|
            0 <= i < register.len() ==> (#[trigger] register[i]).invoke_id != handle.invoke_id,
    ensures
        command_index(register.push(handle), handle.invoke_id) == register.len(),
        without(register.push(handle), register.len() as int) == register,
{
    let longer = register.push(handle);
    assert forall|i: int| 0 <= i < register.len() implies (#[trigger] longer[i]).invoke_id
        != handle.invoke_id by {
        assert(longer[i] == register[i]);
    }
    lemma_command_index_is(longer, handle.invoke_id, register.len() as int);
    assert(without(longer, register.len() as int) =~= register);
}

/// A request is taken out of the register alone: all others stay in it.
pub proof fn law_other_requests_stay(register: Seq<CommandWriteHandle>, index: int)
    requires
        0 <= index < register.len(),
    ensures
        without(register, index).to_multiset() == register.to_multiset().remove(register[index]),
        without(register, index).len() == register.len() - 1,
{
    broadcast use vstd::seq_lib::group_to_multiset_ensures;

    let last = register.last();
    let shorter = register.drop_last();
    assert(register =~= shorter.push(last));
    if index == register.len() - 1 {
        assert(without(register, index) =~= shorter);
        assert(register.to_multiset() =~= shorter.to_multiset().insert(last));
        assert(register.to_multiset().remove(last) =~= shorter.to_multiset());
    } else {
        assert(without(register, index) =~= shorter.update(index, last));
        assert(shorter[index] == register[index]);
        assert(register.to_multiset() =~= shorter.to_multiset().insert(last));
        assert(shorter.to_multiset().contains(register[index]));
        assert(without(register, index).to_multiset() =~= register.to_multiset().remove(
            register[index],
        ));
    }
}

/// The invoke count after `n` more requests.
pub open spec fn count_after(count: u16, n: nat) -> u16
    decreases n,
{
    if n == 0 {
        count
    } else {
        next_count(count_after(count, (n - 1) as nat))
    }
}

proof fn lemma_count_after(count: u16, n: nat)
    ensures
        count_after(count, n) == (count + n) % 0x1_0000,
    decreases n,
{
    if n > 0 {
        lemma_count_after(count, (n - 1) as nat);
    }
}

/// No two of 65536 requests in a row have the same invoke id; the next one has
/// that of the first again.
pub proof fn law_invoke_ids_differ(count: u16, i: nat, j: nat)
    requires
        i < j,
    ensures
        j - i < 0x1_0000 ==> count_after(count, i) != count_after(count, j),
        j - i == 0x1_0000 ==> count_after(count, i) == count_after(count, j),
{
    lemma_count_after(count, i);
    lemma_count_after(count, j);
}

/// Where a request is taken out of the register, the last one takes its place, and
/// no other one moves.
pub proof fn law_last_request_takes_the_place(register: Seq<CommandWriteHandle>, index: int)
    requires
        0 <= index < register.len(),
    ensures
        without(register, index).len() == register.len() - 1,
        index < register.len() - 1 ==> without(register, index)[index] == register[
            register.len() - 1
        ],
        forall|i: int|
            0 <= i < register.len() - 1 && i != index ==> #[trigger] without(register, index)[i]
                == register[i],
{
}

/// The invoke count goes up by one, and from its greatest value to zero.
pub proof fn law_next_count(count: u16)
    ensures
        count < 65535 ==> next_count(count) == count + 1,
        count == 65535 ==> next_count(count) == 0,
{
}

} // verus!
