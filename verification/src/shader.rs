//! A linked shader program with a memoized uniform-location cache.
//!
//! The device compiles and links; this module holds the decision logic: which
//! stage outcome yields which error, and the cache that resolves each uniform
//! name against the device at most once.  The cache is a pair of parallel
//! vectors (names and locations) whose names stay pairwise distinct.

use vstd::prelude::*;

verus! {

/// Why a shader program could not be built: a stage failed to compile, or
/// the program failed to link.  Each variant carries the device-reported
/// diagnostic log verbatim.
#[derive(Debug)]
pub enum ShaderError {
    CompileError(String),
    LinkError(String),
}

/// A compiled-and-linked program handle plus the uniform-location cache.
pub struct Shader {
    pub program: u32,
    pub uniform_names: Vec<Vec<u8>>,
    pub uniform_locations: Vec<u32>,
}

impl Shader {
    /// The cached uniform names, as byte strings.
    pub open spec fn names(self) -> Seq<Seq<u8>> {
        self.uniform_names@.map_values(|v: Vec<u8>| v@)
    }

    /// The cache holds one location per name and no name twice.
    pub open spec fn wf(self) -> bool {
        &&& self.uniform_names@.len() == self.uniform_locations@.len()
        &&& forall|i: int, j: int|
            0 <= i < j < self.names().len() ==> self.names()[i] != self.names()[j]
    }

    /// The cache has resolved this uniform name.
    pub open spec fn has_uniform(self, name: Seq<u8>) -> bool {
        exists|i: int| 0 <= i < self.names().len() && self.names()[i] == name
    }

    /// The cache slot of a resolved name.
    pub open spec fn uniform_index(self, name: Seq<u8>) -> int {
        choose|i: int| 0 <= i < self.names().len() && self.names()[i] == name
    }

    /// The cached location of a resolved name.
    pub open spec fn uniform_location_of(self, name: Seq<u8>) -> u32 {
        self.uniform_locations@[self.uniform_index(name)]
    }

    /// In a well-formed cache the slot of a name is the one slot holding it.
    pub proof fn lemma_uniform_index_is(self, name: Seq<u8>, i: int)
        requires
            self.wf(),
            0 <= i < self.names().len(),
            self.names()[i] == name,
        ensures
            self.has_uniform(name),
            self.uniform_index(name) == i,
            self.uniform_location_of(name) == self.uniform_locations@[i],
    {
        assert(self.has_uniform(name));
        let j = self.uniform_index(name);
        if j != i {
            if i < j {
                assert(self.names()[i] != self.names()[j]);
            } else {
                assert(self.names()[j] != self.names()[i]);
            }
        }
    }

    /// Decide the outcome of building a program from the device's stage
    /// reports: a failed stage wins over a failed link, and success yields a
    /// program with an empty uniform cache.
    pub fn new(
        program: u32,
        vertex_compile: Result<(), String>,
        fragment_compile: Result<(), String>,
        link_ok: bool,
        link_log: String,
    ) -> (r: Result<Shader, ShaderError>)
        ensures
            (vertex_compile matches Err(log) ==> r == Err::<Shader, ShaderError>(
                ShaderError::CompileError(log),
            )),
            vertex_compile is Ok ==> (fragment_compile matches Err(log) ==> r == Err::<
                Shader,
                ShaderError,
            >(ShaderError::CompileError(log))),
            vertex_compile is Ok && fragment_compile is Ok && !link_ok ==> r == Err::<
                Shader,
                ShaderError,
            >(ShaderError::LinkError(link_log)),
            vertex_compile is Ok && fragment_compile is Ok && link_ok ==> (r matches Ok(s) && s.wf()
                && s.program == program && s.names().len() == 0),
            r is Ok <==> (vertex_compile is Ok && fragment_compile is Ok && link_ok),
    {
        match vertex_compile {
            Err(log) => Err(ShaderError::CompileError(log)),
            Ok(()) => match fragment_compile {
                Err(log) => Err(ShaderError::CompileError(log)),
                Ok(()) => {
                    if link_ok {
                        Ok(
                            Shader {
                                program,
                                uniform_names: Vec::new(),
                                uniform_locations: Vec::new(),
                            },
                        )
                    } else {
                        Err(ShaderError::LinkError(link_log))
                    }
                },
            },
        }
    }

    /// The program handle this shader was linked as.
    pub fn get_program(&self) -> (p: u32)
        ensures
            p == self.program,
    {
        self.program
    }

    /// Probe the cache: the location if the name was resolved before, and
    /// `None` exactly when the name has never been cached (the caller then
    /// performs the one device lookup and stores it).
    pub fn get_uniform_location(&self, uniform_name: &Vec<u8>) -> (r: Option<u32>)
        requires
            self.wf(),
        ensures
            r matches Some(loc) ==> self.has_uniform(uniform_name@) && loc
                == self.uniform_location_of(uniform_name@),
            r is None <==> !self.has_uniform(uniform_name@),
    {
        let n: usize = self.uniform_names.len();
        let mut i: usize = 0;
        while i < n
            invariant
                self.wf(),
                n == self.uniform_names@.len(),
                i <= n,
                forall|k: int| 0 <= k < i ==> self.names()[k] != uniform_name@,
            decreases n - i,
        {
            if bytes_eq(&self.uniform_names[i], uniform_name) {
                proof {
                    self.lemma_uniform_index_is(uniform_name@, i as int);
                }
                return Some(self.uniform_locations[i]);
            }
            i += 1;
        }
        return None;
    }

    /// Store a freshly resolved location.  Every other cached name keeps its
    /// resolution, so with `get_uniform_location` the device is consulted at
    /// most once per name.
    pub fn cache_uniform_location(&mut self, uniform_name: Vec<u8>, location: u32)
        requires
            old(self).wf(),
            !old(self).has_uniform(uniform_name@),
        ensures
            final(self).wf(),
            cache_step(*old(self), *final(self), uniform_name@, location),
            final(self).program == old(self).program,
            final(self).has_uniform(uniform_name@),
            final(self).uniform_location_of(uniform_name@) == location,
            forall|n: Seq<u8>|
                n != uniform_name@ ==> (final(self).has_uniform(n) <==> old(self).has_uniform(n)),
            forall|n: Seq<u8>|
                n != uniform_name@ && old(self).has_uniform(n) ==> final(self).uniform_location_of(
                    n,
                ) == old(self).uniform_location_of(n),
    {
        let ghost pre = *self;
        proof {
            assert(pre.names().len() == pre.uniform_names@.len());
        }
        self.uniform_names.push(uniform_name);
        self.uniform_locations.push(location);
        proof {
            assert(self.names() =~= pre.names().push(uniform_name@));
            lemma_cache_push(pre, *self, uniform_name@, location);
        }
    }
}

/// `post` is `pre` with one more cache entry, `name -> location`.
pub open spec fn cache_step(pre: Shader, post: Shader, name: Seq<u8>, location: u32) -> bool {
    &&& post.program == pre.program
    &&& post.names() == pre.names().push(name)
    &&& post.uniform_locations@ == pre.uniform_locations@.push(location)
}

/// Resolving a name is memoized: once a missed name is stored, it and every
/// previously resolved name probe to their stored locations, so a repeated
/// resolution performs no further device lookup.
pub proof fn lemma_cache_step_memoizes(pre: Shader, post: Shader, name: Seq<u8>, location: u32)
    requires
        pre.wf(),
        !pre.has_uniform(name),
        cache_step(pre, post, name, location),
    ensures
        post.wf(),
        post.has_uniform(name),
        post.uniform_location_of(name) == location,
        forall|n: Seq<u8>| n != name ==> (post.has_uniform(n) <==> pre.has_uniform(n)),
        forall|n: Seq<u8>|
            n != name && pre.has_uniform(n) ==> post.uniform_location_of(n)
                == pre.uniform_location_of(n),
{
    lemma_cache_push(pre, post, name, location);
}

/// The shared argument behind `cache_uniform_location` and
/// `lemma_cache_step_memoizes`.
proof fn lemma_cache_push(pre: Shader, post: Shader, name: Seq<u8>, location: u32)
    requires
        pre.wf(),
        !pre.has_uniform(name),
        cache_step(pre, post, name, location),
    ensures
        post.wf(),
        post.has_uniform(name),
        post.uniform_location_of(name) == location,
        forall|n: Seq<u8>| n != name ==> (post.has_uniform(n) <==> pre.has_uniform(n)),
        forall|n: Seq<u8>|
            n != name && pre.has_uniform(n) ==> post.uniform_location_of(n)
                == pre.uniform_location_of(n),
{
    let len = pre.names().len() as int;
    assert(post.names().len() == len + 1);
    assert forall|i: int, j: int|
        0 <= i < j < post.names().len() implies post.names()[i] != post.names()[j] by {
        if j < len {
            assert(pre.names()[i] != pre.names()[j]);
        } else {
            assert(post.names()[j] == name);
            assert(post.names()[i] == pre.names()[i]);
        }
    }
    post.lemma_uniform_index_is(name, len);
    assert forall|n: Seq<u8>| n != name implies (post.has_uniform(n) <==> pre.has_uniform(n)) by {
        if post.has_uniform(n) {
            let i = post.uniform_index(n);
            assert(0 <= i < len + 1 && post.names()[i] == n);
            assert(i != len);
            assert(pre.names()[i] == n);
        }
        if pre.has_uniform(n) {
            let i = pre.uniform_index(n);
            assert(post.names()[i] == n);
        }
    }
    assert forall|n: Seq<u8>|
        n != name && pre.has_uniform(n) implies post.uniform_location_of(n)
        == pre.uniform_location_of(n) by {
        let i = pre.uniform_index(n);
        assert(0 <= i < len && pre.names()[i] == n);
        pre.lemma_uniform_index_is(n, i);
        assert(post.names()[i] == n);
        post.lemma_uniform_index_is(n, i);
    }
}

/// Byte-string equality.
fn bytes_eq(a: &Vec<u8>, b: &Vec<u8>) -> (r: bool)
    ensures
        r == (a@ == b@),
{
    if a.len() != b.len() {
        return false;
    }
    let n: usize = a.len();
    let mut i: usize = 0;
    while i < n
        invariant
            n == a@.len(),
            a@.len() == b@.len(),
            i <= n,
            forall|k: int| 0 <= k < i ==> a@[k] == b@[k],
        decreases n - i,
    {
        if a[i] != b[i] {
            return false;
        }
        i += 1;
    }
    proof {
        assert(a@ =~= b@);
    }
    return true;
}

} // verus!
