//! Command frames: one tick's ordered command list with an append-only
//! payload arena, both bounded, and the pair of frames that producers and the
//! consumer exchange once per tick.

use vstd::prelude::*;

use crate::assets::{
    MeshData, MeshIndex, MeshParams, RenderTextureParams, ShaderParams, SurfaceParams,
    SurfaceScissor, SurfaceViewport, TextureData, TextureParams, TextureRegion,
};
use crate::errors::Error;
use crate::handle::Handle;

verus! {

/// A run of bytes in a frame's payload arena.
#[derive(Debug, Clone, Copy, PartialEq, Eq, Structural)]
pub struct BufferPtr {
    pub offset: usize,
    pub len: usize,
}

/// One recorded operation for the backend.
#[derive(Debug)]
pub enum Command {
    /// Makes a surface the target of the commands that follow.
    Bind(Handle),
    /// Draws the mesh indices selected with a shader; the uniforms are in the arena.
    Draw(Handle, Handle, MeshIndex, BufferPtr),
    UpdateScissor(SurfaceScissor),
    UpdateViewport(SurfaceViewport),
    CreateSurface(Handle, SurfaceParams),
    DeleteSurface(Handle),
    /// A shader with its vertex and fragment sources.
    CreateShader(Handle, ShaderParams, String, String),
    DeleteShader(Handle),
    CreateMesh(Handle, MeshParams, Option<MeshData>),
    /// Replaces vertex bytes from a byte offset on; the bytes are in the arena.
    UpdateVertexBuffer(Handle, usize, BufferPtr),
    /// Replaces index bytes from a byte offset on; the bytes are in the arena.
    UpdateIndexBuffer(Handle, usize, BufferPtr),
    DeleteMesh(Handle),
    CreateTexture(Handle, TextureParams, Option<TextureData>),
    /// Replaces the texels of a region; the bytes are in the arena.
    UpdateTexture(Handle, TextureRegion, BufferPtr),
    DeleteTexture(Handle),
    CreateRenderTexture(Handle, RenderTextureParams),
    DeleteRenderTexture(Handle),
}

/// The arena run that command `c` carries, if any.
pub open spec fn payload_of(c: Command) -> Option<BufferPtr> {
    match c {
        Command::Draw(_, _, _, p) => Some(p),
        Command::UpdateVertexBuffer(_, _, p) => Some(p),
        Command::UpdateIndexBuffer(_, _, p) => Some(p),
        Command::UpdateTexture(_, _, p) => Some(p),
        _ => None,
    }
}

/// Whether the arena run that `c` carries, if any, lies within the first
/// `len` arena bytes.
pub open spec fn points_into(c: Command, len: nat) -> bool {
    match payload_of(c) {
        Some(p) => p.offset + p.len <= len,
        None => true,
    }
}

/// The arena run that `cmd` carries, if any.
pub fn payload_ptr(cmd: &Command) -> (r: Option<BufferPtr>)
    ensures
        r == payload_of(*cmd),
{
    match cmd {
        Command::Draw(_, _, _, p) => Some(*p),
        Command::UpdateVertexBuffer(_, _, p) => Some(*p),
        Command::UpdateIndexBuffer(_, _, p) => Some(*p),
        Command::UpdateTexture(_, _, p) => Some(*p),
        _ => None,
    }
}

/// One tick's commands, in append order, and the payload arena they point into.
pub struct Frame {
    cmds: Vec<Command>,
    bufs: Vec<u8>,
    cmd_capacity: usize,
    buf_capacity: usize,
}

impl Frame {
    /// The commands, in the order they were appended.
    pub closed spec fn commands(&self) -> Seq<Command> {
        self.cmds@
    }

    /// The bytes of the payload arena.
    pub closed spec fn payload(&self) -> Seq<u8> {
        self.bufs@
    }

    /// The most commands the frame holds.
    pub closed spec fn command_capacity(&self) -> nat {
        self.cmd_capacity as nat
    }

    /// The most bytes the arena holds.
    pub closed spec fn payload_capacity(&self) -> nat {
        self.buf_capacity as nat
    }

    /// The frame's internal invariant: it holds no more than its capacities.
    pub closed spec fn wf(&self) -> bool {
        &&& self.cmds@.len() <= self.cmd_capacity
        &&& self.bufs@.len() <= self.buf_capacity
        &&& forall|i: int| 0 <= i < self.cmds@.len() ==> points_into(#[trigger] self.cmds@[i], self.bufs@.len())
    }

    /// Whether `n_cmds` more commands and `n_bytes` more arena bytes fit.
    pub open spec fn has_room(&self, n_cmds: nat, n_bytes: nat) -> bool {
        &&& self.commands().len() + n_cmds <= self.command_capacity()
        &&& self.payload().len() + n_bytes <= self.payload_capacity()
    }

    /// Whether `other` has the same capacities as this frame.
    pub open spec fn same_capacity(&self, other: Frame) -> bool {
        &&& self.command_capacity() == other.command_capacity()
        &&& self.payload_capacity() == other.payload_capacity()
    }

    /// An empty frame that holds at most `commands` commands and `bytes`
    /// arena bytes.
    pub fn with_capacity(commands: usize, bytes: usize) -> (r: Frame)
        ensures
            r.wf(),
            r.commands() == Seq::<Command>::empty(),
            r.payload() == Seq::<u8>::empty(),
            r.command_capacity() == commands,
            r.payload_capacity() == bytes,
    {
        Frame { cmds: Vec::new(), bufs: Vec::new(), cmd_capacity: commands, buf_capacity: bytes }
    }

    /// The number of commands recorded.
    pub fn len(&self) -> (r: usize)
        ensures
            r == self.commands().len(),
    {
        self.cmds.len()
    }

    /// The number of arena bytes used.
    pub fn payload_len(&self) -> (r: usize)
        ensures
            r == self.payload().len(),
    {
        self.bufs.len()
    }

    /// Whether `n_cmds` more commands and `n_bytes` more arena bytes fit.
    pub fn room_for(&self, n_cmds: usize, n_bytes: usize) -> (r: bool)
        requires
            self.wf(),
        ensures
            r == self.has_room(n_cmds as nat, n_bytes as nat),
    {
        n_cmds <= self.cmd_capacity - self.cmds.len() && n_bytes <= self.buf_capacity - self.bufs.len()
    }

    /// Appends `cmd`, or fails with `CapacityExceeded` and changes nothing
    /// when the command list is full.
    pub fn push(&mut self, cmd: Command) -> (r: Result<(), Error>)
        requires
            old(self).wf(),
            points_into(cmd, old(self).payload().len()),
        ensures
            final(self).wf(),
            final(self).same_capacity(*old(self)),
            final(self).payload() == old(self).payload(),
            old(self).has_room(1, 0) ==> r is Ok && final(self).commands() == old(self).commands().push(cmd),
            !old(self).has_room(1, 0) ==> r == Err::<(), Error>(Error::CapacityExceeded)
                && final(self).commands() == old(self).commands(),
    {
        if self.cmds.len() < self.cmd_capacity {
            self.cmds.push(cmd);
            assert(forall|i: int| 0 <= i < self.cmds@.len() - 1 ==> self.cmds@[i] == old(self).cmds@[i]);
            Ok(())
        } else {
            Err(Error::CapacityExceeded)
        }
    }

    /// Copies `data` to the end of the arena and returns where it stands, or
    /// fails with `CapacityExceeded` and changes nothing when it does not fit.
    /// Bytes appended before are never changed.
    pub fn extend_from_slice(&mut self, data: &[u8]) -> (r: Result<BufferPtr, Error>)
        requires
            old(self).wf(),
        ensures
            final(self).wf(),
            final(self).same_capacity(*old(self)),
            final(self).commands() == old(self).commands(),
            old(self).has_room(0, data@.len()) ==> {
                &&& r == Ok::<BufferPtr, Error>(BufferPtr { offset: old(self).payload().len() as usize, len: data@.len() as usize })
                &&& final(self).payload() == old(self).payload() + data@
            },
            !old(self).has_room(0, data@.len()) ==> {
                &&& r == Err::<BufferPtr, Error>(Error::CapacityExceeded)
                &&& final(self).payload() == old(self).payload()
            },
    {
        if data.len() > self.buf_capacity - self.bufs.len() {
            return Err(Error::CapacityExceeded);
        }
        let ptr = BufferPtr { offset: self.bufs.len(), len: data.len() };
        let ghost pre = self.bufs@;
        let mut i: usize = 0;
        while i < data.len()
            invariant
                0 <= i <= data@.len(),
                self.bufs@ == pre + data@.subrange(0, i as int),
                pre.len() + data@.len() <= self.buf_capacity,
                self.cmds@ == old(self).cmds@,
                old(self).wf(),
                self.cmd_capacity == old(self).cmd_capacity,
                self.buf_capacity == old(self).buf_capacity,
            decreases data@.len() - i,
        {
            self.bufs.push(data[i]);
            assert(data@.subrange(0, i + 1) =~= data@.subrange(0, i as int).push(data@[i as int]));
            i = i + 1;
        }
        assert(data@.subrange(0, data@.len() as int) =~= data@);
        Ok(ptr)
    }

    /// The command at position `i`.
    pub fn command(&self, i: usize) -> (r: &Command)
        requires
            self.wf(),
            i < self.commands().len(),
        ensures
            *r == self.commands()[i as int],
            points_into(*r, self.payload().len()),
    {
        &self.cmds[i]
    }

    /// The arena bytes that `ptr` points at.
    pub fn bytes(&self, ptr: BufferPtr) -> (r: &[u8])
        requires
            ptr.offset + ptr.len <= self.payload().len(),
        ensures
            r@ == self.payload().subrange(ptr.offset as int, ptr.offset + ptr.len),
    {
        let s = self.bufs.as_slice();
        assert(s@.len() == s.len());
        &s[ptr.offset..ptr.offset + ptr.len]
    }

    /// Drops every command and every arena byte; the capacities stay.
    pub fn clear(&mut self)
        ensures
            final(self).wf(),
            final(self).same_capacity(*old(self)),
            final(self).commands() == Seq::<Command>::empty(),
            final(self).payload() == Seq::<u8>::empty(),
    {
        self.cmds = Vec::new();
        self.bufs = Vec::new();
    }
}

/// Two frames: the front one, that producers append to, and the back one,
/// that the consumer dispatches. `swap` exchanges them.
pub struct DoubleFrame {
    front: Frame,
    back: Frame,
}

impl DoubleFrame {
    /// The frame that producers append to.
    pub closed spec fn front(&self) -> Frame {
        self.front
    }

    /// The frame that the consumer dispatches.
    pub closed spec fn back(&self) -> Frame {
        self.back
    }

    /// Both frames are well formed.
    pub open spec fn wf(&self) -> bool {
        self.front().wf() && self.back().wf()
    }

    /// Two empty frames, each with the given capacities.
    pub fn with_capacity(commands: usize, bytes: usize) -> (r: DoubleFrame)
        ensures
            r.wf(),
            r.front().commands() == Seq::<Command>::empty(),
            r.front().payload() == Seq::<u8>::empty(),
            r.front().command_capacity() == commands,
            r.front().payload_capacity() == bytes,
            r.back().commands() == Seq::<Command>::empty(),
            r.back().payload() == Seq::<u8>::empty(),
            r.back().same_capacity(r.front()),
    {
        DoubleFrame {
            front: Frame::with_capacity(commands, bytes),
            back: Frame::with_capacity(commands, bytes),
        }
    }

    /// The front frame, for a producer to append to.
    pub fn front_mut(&mut self) -> (r: &mut Frame)
        ensures
            *r == old(self).front(),
            final(self).front() == *final(r),
            final(self).back() == old(self).back(),
    {
        &mut self.front
    }

    /// The back frame, for the consumer to dispatch.
    pub fn back_mut(&mut self) -> (r: &mut Frame)
        ensures
            *r == old(self).back(),
            final(self).back() == *final(r),
            final(self).front() == old(self).front(),
    {
        &mut self.back
    }

    /// The back frame, read only.
    pub fn back_ref(&self) -> (r: &Frame)
        ensures
            *r == self.back(),
    {
        &self.back
    }

    /// The front frame, read only.
    pub fn front_ref(&self) -> (r: &Frame)
        ensures
            *r == self.front(),
    {
        &self.front
    }

    /// Exchanges the roles of the two frames.
    pub fn swap(&mut self)
        ensures
            final(self).front() == old(self).back(),
            final(self).back() == old(self).front(),
    {
        std::mem::swap(&mut self.front, &mut self.back);
    }
}

} // verus!
