use vstd::prelude::*;

verus! {

/// One input/expected-output pair. Identity is positional: a testcase is
/// addressed by its index within the collection, never by a name.
#[derive(Debug, Clone)]
pub struct Testcase {
    pub input: String,
    pub output: String,
}

impl Testcase {
    /// Mathematical value of a testcase: its two texts as character sequences.
    pub open spec fn rep(self) -> (Seq<char>, Seq<char>) {
        (self.input@, self.output@)
    }

    pub fn new(input: String, output: String) -> (r: Testcase)
        ensures
            r.rep() == (input@, output@),
    {
        Testcase { input, output }
    }

    pub fn input(&self) -> (r: &String)
        ensures
            r@ == self.rep().0,
    {
        &self.input
    }

    pub fn output(&self) -> (r: &String)
        ensures
            r@ == self.rep().1,
    {
        &self.output
    }
}

/// An ordered collection of testcases for one task; the unit that the store
/// persists and loads wholesale. Never mutated after creation: a later run may
/// overwrite the persisted file, but never updates it partially.
#[derive(Debug, Clone)]
pub struct TestcaseFile {
    pub testcases: Vec<Testcase>,
}

impl TestcaseFile {
    /// Mathematical value of the collection: the ordered pair sequence.
    pub open spec fn rep(self) -> Seq<(Seq<char>, Seq<char>)> {
        self.testcases@.map_values(|t: Testcase| t.rep())
    }

    pub fn new(testcases: Vec<Testcase>) -> (r: TestcaseFile)
        ensures
            r.rep() == testcases@.map_values(|t: Testcase| t.rep()),
    {
        TestcaseFile { testcases }
    }

    pub fn len(&self) -> (n: usize)
        ensures
            n == self.rep().len(),
    {
        self.testcases.len()
    }

    pub fn testcase(&self, i: usize) -> (r: &Testcase)
        requires
            i < self.rep().len(),
        ensures
            r.rep() == self.rep()[i as int],
    {
        &self.testcases[i]
    }

    /// Builds the collection from two parallel sequences, keeping the
    /// positional correspondence.
    pub fn from_pairs(inputs: &Vec<String>, outputs: &Vec<String>) -> (r: TestcaseFile)
        requires
            inputs@.len() == outputs@.len(),
        ensures
            r.rep().len() == inputs@.len(),
            forall|i: int|
                0 <= i < inputs@.len() ==> r.rep()[i] == (inputs@[i]@, outputs@[i]@),
    {
        let mut testcases: Vec<Testcase> = Vec::new();
        let mut i: usize = 0;
        while i < inputs.len()
            invariant
                inputs@.len() == outputs@.len(),
                i <= inputs@.len(),
                testcases@.len() == i,
                forall|j: int|
                    0 <= j < i ==> testcases@[j].rep() == (inputs@[j]@, outputs@[j]@),
            decreases inputs@.len() - i,
        {
            testcases.push(Testcase::new(inputs[i].clone(), outputs[i].clone()));
            i = i + 1;
        }
        TestcaseFile { testcases }
    }

    /// The inputs, in order.
    pub fn inputs(&self) -> (r: Vec<String>)
        ensures
            r@.len() == self.rep().len(),
            forall|i: int| 0 <= i < r@.len() ==> r@[i]@ == self.rep()[i].0,
    {
        let mut r: Vec<String> = Vec::new();
        let mut i: usize = 0;
        while i < self.testcases.len()
            invariant
                i <= self.testcases@.len(),
                r@.len() == i,
                forall|j: int| 0 <= j < i ==> r@[j]@ == self.rep()[j].0,
            decreases self.testcases@.len() - i,
        {
            r.push(self.testcases[i].input().clone());
            i = i + 1;
        }
        r
    }

    /// The expected outputs, in order.
    pub fn outputs(&self) -> (r: Vec<String>)
        ensures
            r@.len() == self.rep().len(),
            forall|i: int| 0 <= i < r@.len() ==> r@[i]@ == self.rep()[i].1,
    {
        let mut r: Vec<String> = Vec::new();
        let mut i: usize = 0;
        while i < self.testcases.len()
            invariant
                i <= self.testcases@.len(),
                r@.len() == i,
                forall|j: int| 0 <= j < i ==> r@[j]@ == self.rep()[j].1,
            decreases self.testcases@.len() - i,
        {
            r.push(self.testcases[i].output().clone());
            i = i + 1;
        }
        r
    }
}

} // verus!
