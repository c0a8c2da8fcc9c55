//! The embedded prompt corpus: lines of Shakespeare's sonnets.

use crate::sse::line_end;
use crate::text::chars_of;
use rand::seq::SliceRandom;
use vstd::prelude::*;
use vstd::string::*;

verus! {

/// The corpus, one line per sonnet line.
pub const SONNET: &'static str = "\
Shall I compare thee to a summer's day?\n\
Thou art more lovely and more temperate:\n\
Rough winds do shake the darling buds of May,\n\
And summer's lease hath all too short a date:\n\
Sometime too hot the eye of heaven shines,\n\
And often is his gold complexion dimm'd;\n\
And every fair from fair sometime declines,\n\
By chance or nature's changing course untrimm'd;\n\
But thy eternal summer shall not fade\n\
Nor lose possession of that fair thou owest;\n\
Nor shall Death brag thou wander'st in his shade,\n\
When in eternal lines to time thou growest:\n\
So long as men can breathe or eyes can see,\n\
So long lives this and this gives life to thee.\n\
Then let not winter's ragged hand deface\n\
In thee thy summer, ere thou be distill'd:\n\
Make sweet some vial; treasure thou some place\n\
With beauty's treasure, ere it be self-kill'd.\n\
That use is not forbidden usury,\n\
Which happies those that pay the willing loan;\n\
That's for thyself to breed another thee,\n\
Or ten times happier, be it ten for one;\n\
Ten times thyself were happier than thou art,\n\
If ten of thine ten times refigured thee:\n\
Then what could death do, if thou shouldst depart,\n\
Leaving thee living in posterity?\n\
Be not self-will'd, for thou art much too fair\n\
To be death's conquest and make worms thine heir.\n\
Where art thou, Muse, that thou forget'st so long\n\
To speak of that which gives thee all thy might?\n\
Spend'st thou thy fury on some worthless song,\n\
Darkening thy power to lend base subjects light?\n\
Return, forgetful Muse, and straight redeem\n\
In gentle numbers time so idly spent;\n\
Sing to the ear that doth thy lays esteem\n\
And gives thy pen both skill and argument.\n\
Rise, resty Muse, my love's sweet face survey,\n\
If Time have any wrinkle graven there;\n\
If any, be a satire to decay,\n\
And make Time's spoils despised every where.\n\
Give my love fame faster than Time wastes life;\n\
So thou prevent'st his scythe and crooked knife.\n\
My glass shall not persuade me I am old,\n\
So long as youth and thou are of one date;\n\
But when in thee time's furrows I behold,\n\
Then look I death my days should expiate.\n\
For all that beauty that doth cover thee\n\
Is but the seemly raiment of my heart,\n\
Which in thy breast doth live, as thine in me:\n\
How can I then be elder than thou art?\n\
O, therefore, love, be of thyself so wary\n\
As I, not for myself, but for thee will;\n\
Bearing thy heart, which I will keep so chary\n\
As tender nurse her babe from faring ill.\n\
Presume not on thy heart when mine is slain;\n\
Thou gavest me thine, not to give back again.\n\
So am I as the rich, whose blessed key\n\
Can bring him to his sweet up-locked treasure,\n\
The which he will not every hour survey,\n\
For blunting the fine point of seldom pleasure.\n\
Therefore are feasts so solemn and so rare,\n\
Since, seldom coming, in the long year set,\n\
Like stones of worth they thinly placed are,\n\
Or captain jewels in the carcanet.\n\
So is the time that keeps you as my chest,\n\
Or as the wardrobe which the robe doth hide,\n\
To make some special instant special blest,\n\
By new unfolding his imprison'd pride.\n\
Blessed are you, whose worthiness gives scope,\n\
Being had, to triumph, being lack'd, to hope.\n\
If there be nothing new, but that which is\n\
Hath been before, how are our brains beguiled,\n\
Which, labouring for invention, bear amiss\n\
The second burden of a former child!\n\
O, that record could with a backward look,\n\
Even of five hundred courses of the sun,\n\
Show me your image in some antique book,\n\
Since mind at first in character was done!\n\
That I might see what the old world could say\n\
To this composed wonder of your frame;\n\
Whether we are mended, or whether better they,\n\
Or whether revolution be the same.\n\
O, sure I am, the wits of former days\n\
To subjects worse have given admiring praise.";

/// The lines of `t` from `i` on, split at each `\n`.
pub open spec fn lines_from(t: Seq<char>, i: int) -> Seq<Seq<char>>
    decreases t.len() + 1 - i,
{
    if i < 0 || i >= t.len() {
        Seq::empty()
    } else {
        let e = line_end(t, i);
        if e < i || e > t.len() {
            Seq::empty()
        } else {
            seq![t.subrange(i, e)] + lines_from(t, e + 1)
        }
    }
}

/// The texts of a sequence of string slices.
pub open spec fn views(v: Seq<&str>) -> Seq<Seq<char>> {
    v.map_values(|s: &str| s@)
}

/// Splits `text` into its lines.
pub fn split_lines(text: &'static str) -> (r: Vec<&'static str>)
    ensures
        views(r@) == lines_from(text@, 0),
{
    let cs = chars_of(text);
    let n = cs.len();
    let mut out: Vec<&'static str> = Vec::new();
    let mut i: usize = 0;
    while i < n
        invariant
            n == text@.len(),
            cs@ == text@,
            0 <= i <= n,
            views(out@) + lines_from(text@, i as int) == lines_from(text@, 0),
        decreases n - i,
    {
        let mut e = i;
        while e < n && cs[e] != '\n'
            invariant
                i <= e <= n,
                line_end(text@, i as int) == line_end(text@, e as int),
                cs@ == text@,
                n == text@.len(),
            decreases n - e,
        {
            e = e + 1;
        }
        let line = text.substring_char(i, e);
        let ghost before = out@;
        out.push(line);
        proof {
            assert(views(out@) =~= views(before).push(line@));
            assert(views(out@) + lines_from(text@, e + 1) =~= views(before) + lines_from(text@, i as int));
        }
        if e >= n {
            proof {
                assert(lines_from(text@, e + 1) == Seq::<Seq<char>>::empty());
                assert(lines_from(text@, n as int) == Seq::<Seq<char>>::empty());
            }
            i = n;
        } else {
            i = e + 1;
        }
    }
    proof {
        assert(lines_from(text@, n as int) == Seq::<Seq<char>>::empty());
        assert(views(out@) =~= views(out@) + lines_from(text@, n as int));
    }
    out
}

/// The corpus lines, in their original order.
pub fn sonnet_lines() -> (r: Vec<&'static str>)
    ensures
        views(r@) == lines_from(SONNET@, 0),
{
    split_lines(SONNET)
}

/// Relies on rand::seq::SliceRandom::shuffle with the thread-local generator,
/// which only swaps elements: the result is a permutation of the input.
#[verifier::external_body]
fn shuffle_lines(lines: &mut Vec<&'static str>)
    ensures
        final(lines)@.to_multiset() == old(lines)@.to_multiset(),
{
    lines.shuffle(&mut rand::rng());
}

/// The corpus lines in a random order.
pub fn get_shuffled_sonnet_lines() -> (r: Vec<&'static str>)
    ensures
        exists|lines: Seq<&'static str>|
            views(lines) == lines_from(SONNET@, 0) && r@.to_multiset() == lines.to_multiset(),
{
    let mut lines = sonnet_lines();
    shuffle_lines(&mut lines);
    lines
}

} // verus!
