use vstd::prelude::*;

verus! {

/// glam's 4x4 column-major matrix, declared so values of it can flow
/// through verified code. Verus sees nothing inside it; its float content
/// belongs to the rendering layer.
#[verifier::external_type_specification]
#[verifier::external_body]
pub struct ExMat4(glam::Mat4);

/// Relies on glam::Mat4::IDENTITY: the multiplicative identity matrix.
#[verifier::external_body]
fn mat4_identity() -> glam::Mat4 {
    glam::Mat4::IDENTITY
}

/// Relies on glam's `Mul for Mat4`: the matrix product. Its float content
/// is opaque here; only the stack discipline around it is verified.
#[verifier::external_body]
fn mat4_mul(a: glam::Mat4, b: glam::Mat4) -> glam::Mat4 {
    a * b
}

/// A current-transform stack for the rendering layer: a current matrix and
/// the stack of matrices it can be saved to and restored from. The caller
/// reads the current matrix back with `get` and hands it to its shader.
///
/// The matrices themselves are opaque float data; what is verified is the
/// stack discipline: `pop` restores exactly what the matching `push` saved,
/// and only `push`/`pop` change the stack.
pub struct Transformer {
    pub stack: Vec<glam::Mat4>,
    pub current_matrix: glam::Mat4,
}

impl Transformer {
    /// A fresh transformer: an empty stack under the identity matrix.
    pub fn new() -> (r: Self)
        ensures
            r.stack@.len() == 0,
    {
        Self { stack: Vec::new(), current_matrix: mat4_identity() }
    }

    /// Save the current matrix on the stack.
    pub fn push(&mut self)
        ensures
            final(self).stack@ == old(self).stack@.push(old(self).current_matrix),
            final(self).current_matrix == old(self).current_matrix,
    {
        self.stack.push(self.current_matrix);
    }

    /// Restore the most recently saved matrix, removing it from the stack.
    pub fn pop(&mut self)
        requires
            old(self).stack@.len() > 0,
        ensures
            final(self).current_matrix == old(self).stack@.last(),
            final(self).stack@ == old(self).stack@.drop_last(),
    {
        self.current_matrix = self.stack.pop().unwrap();
    }

    /// Multiply the given matrix onto the current one. The product's value
    /// is float data and opaque here; the stack is untouched.
    pub fn transform(&mut self, mat: glam::Mat4)
        ensures
            final(self).stack@ == old(self).stack@,
    {
        self.current_matrix = mat4_mul(self.current_matrix, mat);
    }

    /// Replace the current matrix.
    pub fn set(&mut self, mat: glam::Mat4)
        ensures
            final(self).current_matrix == mat,
            final(self).stack@ == old(self).stack@,
    {
        self.current_matrix = mat;
    }

    /// The current matrix.
    pub fn get(&mut self) -> (r: glam::Mat4)
        ensures
            r == old(self).current_matrix,
            *final(self) == *old(self),
    {
        self.current_matrix
    }
}

} // verus!
