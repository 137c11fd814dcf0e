//! Puriel's settings, statistics and results, and the distribution of the
//! recorded targets over its worker queues.

use vstd::prelude::*;
use crate::purger::{ElapsedTime, round_robin_share, chars_of};
use crossbeam::queue::SegQueue;

verus! {

/// The settings of a Puriel run.  Paths are held as text.
pub struct Cli {
    /// Directory of the target files that Rafael wrote.
    pub puriel_target_dir: String,
    /// Log directory.
    pub pr_log_dir: String,
    /// Age of files to delete, in days.
    pub age: i64,
    /// Ignore change time and only evaluate modify and access times.
    pub ignore_ctime: bool,
    /// Number of worker threads.
    pub thread_count: usize,
    /// Report what would be purged without deleting anything.
    pub dry_run: bool,
}

/// Counters of a Puriel run.
pub struct PurielStatistics {
    pub targets_found: usize,
    pub targets_purged: usize,
    pub target_statx_errors: usize,
}

/// What a Puriel run reports at its end.
pub struct PurielResults {
    pub stats: PurielStatistics,
    pub time: ElapsedTime,
}


#[verifier::external_type_specification]
#[verifier::external_body]
#[verifier::reject_recursive_types(T)]
pub struct ExSegQueue<T>(crossbeam::queue::SegQueue<T>);

/// The targets held by a queue, from head to tail.
pub uninterp spec fn queued_targets(queue: SegQueue<String>) -> Seq<Seq<char>>;

/// `SegQueue::new`: an empty queue.
#[verifier::external_body]
fn new_target_queue() -> (queue: SegQueue<String>)
    ensures
        queued_targets(queue) == Seq::<Seq<char>>::empty(),
{
    SegQueue::new()
}

/// `SegQueue::push_mut`: appends the target at the tail of the queue.
#[verifier::external_body]
fn push_target(queue: &mut SegQueue<String>, target: String)
    ensures
        queued_targets(*final(queue)) == queued_targets(*old(queue)).push(target@),
{
    queue.push_mut(target)
}

pub open spec fn target_views(targets: Seq<String>) -> Seq<Seq<char>> {
    targets.map_values(|t: String| t@)
}

pub open spec fn all_selected(len: nat) -> Seq<bool> {
    Seq::new(len, |i: int| true)
}

/// Distributes the targets read from Rafael's target files over one queue per
/// worker: target `i` goes to queue `i` modulo the number of workers.  Returns
/// the number of targets and the queues.
pub fn populate_worker_queues(args: &Cli, target_paths: &Vec<String>) -> (result: (
    usize,
    Vec<SegQueue<String>>,
))
    ensures
        result.0 == target_paths@.len(),
        result.1@.len() == args.thread_count,
        forall|q: int|
            0 <= q < args.thread_count ==> #[trigger] queued_targets(result.1@[q])
                == round_robin_share(
                target_views(target_paths@),
                all_selected(target_paths@.len()),
                args.thread_count as nat,
                q,
                target_paths@.len() as int,
            ),
{
    let n = args.thread_count;
    let ghost paths = target_views(target_paths@);
    let ghost sel = all_selected(target_paths@.len());
    let mut queues: Vec<SegQueue<String>> = Vec::new();
    let mut q: usize = 0;
    while q < n
        invariant
            q <= n,
            n == args.thread_count,
            paths == target_views(target_paths@),
            sel == all_selected(target_paths@.len()),
            queues@.len() == q,
            forall|r: int|
                0 <= r < q ==> #[trigger] queued_targets(queues@[r]) == round_robin_share(
                    paths,
                    sel,
                    n as nat,
                    r,
                    target_paths@.len() as int,
                ),
        decreases n - q,
    {
        let mut queue = new_target_queue();
        let mut i: usize = 0;
        while i < target_paths.len()
            invariant
                i <= target_paths.len(),
                q < n,
                paths == target_views(target_paths@),
                sel == all_selected(target_paths@.len()),
                queued_targets(queue) == round_robin_share(paths, sel, n as nat, q as int, i as int),
            decreases target_paths.len() - i,
        {
            if i % n == q {
                push_target(&mut queue, target_paths[i].clone());
            }
            i = i + 1;
        }
        queues.push(queue);
        proof {
            assert forall|r: int|
                0 <= r < q + 1 implies #[trigger] queued_targets(queues@[r]) == round_robin_share(
                paths,
                sel,
                n as nat,
                r,
                target_paths@.len() as int,
            ) by {
                if r == q {
                    assert(queues@[r] == queue);
                }
            }
        }
        q = q + 1;
    }
    (target_paths.len(), queues)
}


/// A line without the carriage return that may end it.
pub open spec fn strip_cr(line: Seq<char>) -> Seq<char> {
    if line.len() > 0 && line.last() == '\r' {
        line.drop_last()
    } else {
        line
    }
}

/// Reading a text from the front: the lines completed so far and the line in
/// progress.
pub open spec fn scan_lines(text: Seq<char>) -> (Seq<Seq<char>>, Seq<char>)
    decreases text.len(),
{
    if text.len() == 0 {
        (Seq::empty(), Seq::empty())
    } else {
        let (done, current) = scan_lines(text.drop_last());
        if text.last() == '\n' {
            (done.push(strip_cr(current)), Seq::empty())
        } else {
            (done, current.push(text.last()))
        }
    }
}

/// The lines of a target file, as `BufRead::lines` yields them: split at each
/// newline, a carriage return before the newline dropped, and a last line
/// without newline kept as it is when it is not empty.
pub open spec fn target_lines(text: Seq<char>) -> Seq<Seq<char>> {
    let (done, current) = scan_lines(text);
    if current.len() == 0 {
        done
    } else {
        done.push(current)
    }
}

/// The text of a target file holding the given paths, one per line.
pub open spec fn target_file_text(paths: Seq<Seq<char>>) -> Seq<char>
    decreases paths.len(),
{
    if paths.len() == 0 {
        Seq::empty()
    } else {
        target_file_text(paths.drop_last()) + paths.last() + seq!['\n']
    }
}

/// The line Rafael writes to a target file for a path.
pub fn target_line(target_path: &str) -> (line: String)
    ensures
        line@ == target_path@ + seq!['\n'],
{
    let mut line = String::from_str(target_path);
    line.append("\n");
    proof {
        reveal_strlit("\n");
    }
    assert(line@ =~= target_path@ + seq!['\n']);
    line
}

/// The targets in the text of a target file, one per line.
pub fn split_target_lines(text: &str) -> (targets: Vec<String>)
    ensures
        target_views(targets@) == target_lines(text@),
{
    let chars = chars_of(text);
    let mut targets: Vec<String> = Vec::new();
    let mut current = String::new();
    let mut i: usize = 0;
    while i < chars.len()
        invariant
            i <= chars.len(),
            chars@ == text@,
            (target_views(targets@), current@) == scan_lines(text@.take(i as int)),
        decreases chars.len() - i,
    {
        let ghost before_targets = targets@;
        let ghost before_current = current@;
        assert(text@.take(i + 1).drop_last() =~= text@.take(i as int));
        let c = chars[i];
        if c == '\n' {
            let line = strip_carriage_return(&current);
            targets.push(line);
            current = String::new();
            assert(target_views(targets@) =~= target_views(before_targets).push(strip_cr(before_current)));
        } else {
            push_char(&mut current, c);
        }
        i = i + 1;
    }
    assert(text@.take(chars.len() as int) =~= text@);
    if current.as_str().unicode_len() > 0 {
        let ghost before_targets = targets@;
        let ghost last = current@;
        targets.push(current);
        assert(target_views(targets@) =~= target_views(before_targets).push(last));
    }
    targets
}

fn push_char(s: &mut String, c: char)
    ensures
        final(s)@ == old(s)@.push(c),
{
    let one = char_string(c);
    s.append(one.as_str());
    assert(final(s)@ =~= old(s)@.push(c));
}

/// `String::from(c)`: the one-character string.
#[verifier::external_body]
fn char_string(c: char) -> (s: String)
    ensures
        s@ == seq![c],
{
    String::from(c)
}

fn strip_carriage_return(line: &String) -> (stripped: String)
    ensures
        stripped@ == strip_cr(line@),
{
    let chars = chars_of(line.as_str());
    let n = chars.len();
    let keep = if n > 0 && chars[n - 1] == '\r' {
        n - 1
    } else {
        n
    };
    let mut stripped = String::new();
    let mut i: usize = 0;
    while i < keep
        invariant
            i <= keep <= n,
            n == chars@.len(),
            chars@ == line@,
            stripped@ == chars@.take(i as int),
        decreases keep - i,
    {
        push_char(&mut stripped, chars[i]);
        assert(chars@.take(i + 1) =~= chars@.take(i as int).push(chars@[i as int]));
        i = i + 1;
    }
    assert(strip_cr(line@) =~= chars@.take(keep as int));
    stripped
}

proof fn lemma_scan_plain_suffix(text: Seq<char>, piece: Seq<char>)
    requires
        forall|k: int| 0 <= k < piece.len() ==> piece[k] != '\n',
    ensures
        scan_lines(text + piece) == (scan_lines(text).0, scan_lines(text).1 + piece),
    decreases piece.len(),
{
    if piece.len() == 0 {
        assert(text + piece =~= text);
        assert(scan_lines(text).1 + piece =~= scan_lines(text).1);
    } else {
        let shorter = piece.drop_last();
        lemma_scan_plain_suffix(text, shorter);
        assert((text + piece).drop_last() =~= text + shorter);
        assert((text + piece).last() == piece.last());
        assert(scan_lines(text).1 + shorter + seq![piece.last()] =~= scan_lines(text).1 + piece);
        assert(scan_lines(text).1 + piece =~= (scan_lines(text).1 + shorter).push(piece.last()));
    }
}

/// Whether a path can stand on a line of a target file and be read back as
/// it is: it holds no newline and does not end with a carriage return.
pub open spec fn is_line_safe(path: Seq<char>) -> bool {
    &&& forall|k: int| 0 <= k < path.len() ==> path[k] != '\n'
    &&& !(path.len() > 0 && path.last() == '\r')
}

/// What Rafael writes to a target file, Puriel reads back: the lines of a file
/// holding the given paths, one per line, are those paths, in order.
pub proof fn lemma_target_file_round_trip(paths: Seq<Seq<char>>)
    requires
        forall|i: int| 0 <= i < paths.len() ==> #[trigger] is_line_safe(paths[i]),
    ensures
        scan_lines(target_file_text(paths)) == (paths, Seq::<char>::empty()),
        target_lines(target_file_text(paths)) == paths,
    decreases paths.len(),
{
    if paths.len() == 0 {
        assert(target_file_text(paths) =~= Seq::<char>::empty());
        assert(paths =~= Seq::<Seq<char>>::empty());
    } else {
        let prefix = paths.drop_last();
        let p = paths.last();
        assert forall|i: int| 0 <= i < prefix.len() implies #[trigger] is_line_safe(prefix[i]) by {
            assert(prefix[i] == paths[i]);
        }
        lemma_target_file_round_trip(prefix);
        assert(is_line_safe(paths[paths.len() - 1]));
        lemma_scan_plain_suffix(target_file_text(prefix), p);
        let text = target_file_text(paths);
        assert(text == target_file_text(prefix) + p + seq!['\n']);
        assert(text.drop_last() =~= target_file_text(prefix) + p);
        assert(Seq::<char>::empty() + p =~= p);
        assert(strip_cr(p) == p);
        assert(prefix.push(p) =~= paths);
    }
}


/// Lines may also end with a carriage return before the newline: after whole
/// lines, a line-safe path followed by `\r\n` reads back as the path alone,
/// and one followed by `\n` reads back as it is.
pub proof fn lemma_line_endings_read_back(text: Seq<char>, path: Seq<char>)
    requires
        scan_lines(text).1.len() == 0,
        is_line_safe(path),
    ensures
        scan_lines(text + path + seq!['\r', '\n']) == (scan_lines(text).0.push(path), Seq::<char>::empty()),
        scan_lines(text + path + seq!['\n']) == (scan_lines(text).0.push(path), Seq::<char>::empty()),
{
    let with_cr = path.push('\r');
    assert forall|k: int| 0 <= k < with_cr.len() implies with_cr[k] != '\n' by {
        if k < path.len() {
            assert(with_cr[k] == path[k]);
        }
    }
    lemma_scan_plain_suffix(text, with_cr);
    lemma_scan_plain_suffix(text, path);
    let t1 = text + path + seq!['\r', '\n'];
    assert(t1.drop_last() =~= text + with_cr);
    assert(t1.last() == '\n');
    assert(Seq::<char>::empty() + with_cr =~= with_cr);
    assert(scan_lines(text).1 + with_cr =~= with_cr);
    assert(strip_cr(with_cr) =~= path);
    let t2 = text + path + seq!['\n'];
    assert(t2.drop_last() =~= text + path);
    assert(t2.last() == '\n');
    assert(scan_lines(text).1 + path =~= path);
    assert(strip_cr(path) == path);
}

} // verus!
