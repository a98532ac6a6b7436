//! A depth-limited game-tree search over any game that can list its moves,
//! play one and score a position.

use vstd::prelude::*;

verus! {

/// A game that the search can play.
///
/// A state has a view, its mathematical model, and the rules are stated over
/// that model: which states are valid, which moves are legal and in what
/// order they are enumerated, what a position is worth, and what state a
/// move leads to. The executable methods are held to these statements.
pub trait HeuristicGameTree: Clone + Sized + View {
    /// A move of the game.
    type Move;

    /// The invariant that every state of a game in progress satisfies.
    spec fn valid(v: Self::V) -> bool;

    /// The legal moves of the side to move, in enumeration order.
    spec fn legal_moves(v: Self::V) -> Seq<Self::Move>;

    /// The value of a position, positive where it favours the first side.
    spec fn evaluation(v: Self::V) -> int;

    /// Whether `m` can be played at all. Every legal move can; what else can
    /// is up to the game.
    spec fn accepts(v: Self::V, m: Self::Move) -> bool;

    /// The state that playing `m` leads to.
    spec fn successor(v: Self::V, m: Self::Move, is_opponent: bool) -> Self::V;

    /// Whether the opponent has the turn.
    spec fn opponent_to_move(v: Self::V) -> bool;

    /// A legal move can be played, and leads from a valid state to a valid
    /// state.
    proof fn lemma_legal_move(v: Self::V, m: Self::Move, is_opponent: bool)
        requires
            Self::valid(v),
            Self::legal_moves(v).contains(m),
        ensures
            Self::accepts(v, m),
            Self::valid(Self::successor(v, m, is_opponent)),
    ;

    /// The value of a valid position fits the type that scores are
    /// returned in.
    proof fn lemma_evaluation_bounds(v: Self::V)
        requires
            Self::valid(v),
        ensures
            isize::MIN <= Self::evaluation(v) <= isize::MAX,
    ;

    /// A clone stands for the same position as the state it was made from.
    proof fn lemma_clone(state: &Self, copy: &Self)
        requires
            cloned(*state, *copy),
        ensures
            copy@ == state@,
    ;

    /// Enumerates the legal moves of the side to move.
    fn possible_moves(&self) -> (moves: Vec<Self::Move>)
        requires
            Self::valid(self@),
        ensures
            moves@ == Self::legal_moves(self@),
    ;

    /// Scores the position.
    fn heuristic(&self) -> (h: isize)
        requires
            Self::valid(self@),
        ensures
            h == Self::evaluation(self@),
    ;

    /// Plays `m`, attributed to the opponent if `is_opponent` is set, and
    /// says whether the opponent moves next.
    fn execute_move(&mut self, m: &Self::Move, is_opponent: bool) -> (opponent_next: bool)
        requires
            Self::valid(old(self)@),
            Self::accepts(old(self)@, *m),
        ensures
            final(self)@ == Self::successor(old(self)@, *m, is_opponent),
            opponent_next == Self::opponent_to_move(final(self)@),
    ;
}

/// The value that the search gives a position: its evaluation at depth 0
/// or where no move is legal, otherwise what scanning its children gives,
/// starting from the lowest value at a maximizing node and from the highest
/// at any other.
pub open spec fn search_value<G: HeuristicGameTree>(
    v: G::V,
    depth: nat,
    maximizing: bool,
    alpha: int,
    beta: int,
) -> int
    decreases depth, 1nat, 0nat,
{
    if depth == 0 || G::legal_moves(v).len() == 0 {
        G::evaluation(v)
    } else {
        let start = if maximizing {
            isize::MIN as int
        } else {
            isize::MAX as int
        };
        scan_value::<G>(v, depth, maximizing, 0, start, alpha, beta)
    }
}

/// What scanning the children of a position gives, from child number `from`
/// on, with `best` the best value so far and `alpha`, `beta` the window so
/// far. Each child is searched one ply less deep, as a node that is not
/// maximizing, with the window as it then stands. At a maximizing node the
/// child's value raises `best` and `alpha`; at any other it lowers `best`
/// and raises `beta`. The scan ends after the last child, or as soon as
/// `beta <= alpha`.
pub open spec fn scan_value<G: HeuristicGameTree>(
    v: G::V,
    depth: nat,
    maximizing: bool,
    from: nat,
    best: int,
    alpha: int,
    beta: int,
) -> int
    decreases depth, 0nat, G::legal_moves(v).len() - from,
{
    if depth == 0 || from >= G::legal_moves(v).len() {
        best
    } else {
        let child = G::successor(v, G::legal_moves(v)[from as int], !maximizing);
        let h = search_value::<G>(child, (depth - 1) as nat, false, alpha, beta);
        let best = if maximizing {
            if h > best {
                h
            } else {
                best
            }
        } else {
            if h < best {
                h
            } else {
                best
            }
        };
        let alpha = if maximizing && h > alpha {
            h
        } else {
            alpha
        };
        let beta = if !maximizing && h > beta {
            h
        } else {
            beta
        };
        if beta <= alpha {
            best
        } else {
            scan_value::<G>(v, depth, maximizing, from + 1, best, alpha, beta)
        }
    }
}

/// The value of the `k`-th legal move at the root of a search of the given
/// depth: the value of the position it leads to, searched one ply less deep
/// as a node that is not maximizing, with the window the search starts from
/// (`alpha` highest, `beta` lowest).
pub open spec fn root_value<G: HeuristicGameTree>(
    v: G::V,
    depth: nat,
    is_opponent: bool,
    k: int,
) -> int {
    search_value::<G>(
        G::successor(v, G::legal_moves(v)[k], !is_opponent),
        (depth - 1) as nat,
        false,
        isize::MAX as int,
        isize::MIN as int,
    )
}

/// Whether the `k`-th legal move is the one a search of the given depth
/// chooses: no move has a greater value, and every earlier move has a
/// smaller one.
pub open spec fn is_chosen<G: HeuristicGameTree>(
    v: G::V,
    depth: nat,
    is_opponent: bool,
    k: int,
) -> bool {
    &&& 0 <= k < G::legal_moves(v).len()
    &&& forall|j: int|
        0 <= j < G::legal_moves(v).len() ==> #[trigger] root_value::<G>(v, depth, is_opponent, j)
            <= root_value::<G>(v, depth, is_opponent, k)
    &&& forall|j: int|
        0 <= j < k ==> #[trigger] root_value::<G>(v, depth, is_opponent, j) < root_value::<G>(
            v,
            depth,
            is_opponent,
            k,
        )
}

/// Whether `choice` is what a search of the given depth answers: nothing
/// where no move is legal; at depth 0 the first legal move; otherwise the
/// legal move that is chosen by value.
pub open spec fn is_choice<G: HeuristicGameTree>(
    v: G::V,
    depth: nat,
    is_opponent: bool,
    choice: Option<G::Move>,
) -> bool {
    if G::legal_moves(v).len() == 0 {
        choice is None
    } else if depth == 0 {
        choice == Some(G::legal_moves(v)[0])
    } else {
        exists|k: int|
            is_chosen::<G>(v, depth, is_opponent, k) && choice == Some(
                #[trigger] G::legal_moves(v)[k],
            )
    }
}

/// The value at the end of the first line of play: the evaluation of the
/// position reached by playing the first legal move `depth` times over, or
/// until no move is legal.
pub open spec fn line_value<G: HeuristicGameTree>(v: G::V, depth: nat) -> int
    decreases depth,
{
    if depth == 0 || G::legal_moves(v).len() == 0 {
        G::evaluation(v)
    } else {
        line_value::<G>(G::successor(v, G::legal_moves(v)[0], true), (depth - 1) as nat)
    }
}

/// With `alpha` at its highest the scan of a node that is not maximizing
/// ends after the first child, so the search follows the first line of play
/// and returns the evaluation at its end.
pub proof fn lemma_search_follows_first_line<G: HeuristicGameTree>(v: G::V, depth: nat, beta: int)
    requires
        G::valid(v),
        beta <= isize::MAX,
    ensures
        search_value::<G>(v, depth, false, isize::MAX as int, beta) == line_value::<G>(v, depth),
        isize::MIN <= line_value::<G>(v, depth) <= isize::MAX,
    decreases depth,
{
    G::lemma_evaluation_bounds(v);
    if depth > 0 && G::legal_moves(v).len() > 0 {
        let first = G::legal_moves(v)[0];
        assert(G::legal_moves(v).contains(first));
        G::lemma_legal_move(v, first, true);
        let child = G::successor(v, first, true);
        lemma_search_follows_first_line::<G>(child, (depth - 1) as nat, beta);
        assert(search_value::<G>(v, depth, false, isize::MAX as int, beta) == scan_value::<G>(
            v,
            depth,
            false,
            0,
            isize::MAX as int,
            isize::MAX as int,
            beta,
        ));
    }
}

/// The value of a move at the root is the value at the end of the line that
/// begins with it and goes on with the first legal move each time.
pub proof fn lemma_root_value_is_line_value<G: HeuristicGameTree>(
    v: G::V,
    depth: nat,
    is_opponent: bool,
    k: int,
)
    requires
        G::valid(v),
        depth > 0,
        0 <= k < G::legal_moves(v).len(),
    ensures
        root_value::<G>(v, depth, is_opponent, k) == line_value::<G>(
            G::successor(v, G::legal_moves(v)[k], !is_opponent),
            (depth - 1) as nat,
        ),
{
    assert(G::legal_moves(v).contains(G::legal_moves(v)[k]));
    G::lemma_legal_move(v, G::legal_moves(v)[k], !is_opponent);
    lemma_search_follows_first_line::<G>(
        G::successor(v, G::legal_moves(v)[k], !is_opponent),
        (depth - 1) as nat,
        isize::MIN as int,
    );
}

/// A search of depth 1 is optimal: the move it chooses leads to a position
/// whose evaluation no other legal move's position exceeds, and which every
/// earlier legal move's position falls short of.
pub proof fn lemma_depth_one_optimal<G: HeuristicGameTree>(v: G::V, is_opponent: bool, k: int)
    requires
        is_chosen::<G>(v, 1, is_opponent, k),
    ensures
        forall|j: int|
            0 <= j < G::legal_moves(v).len() ==> G::evaluation(
                G::successor(v, #[trigger] G::legal_moves(v)[j], !is_opponent),
            ) <= G::evaluation(G::successor(v, G::legal_moves(v)[k], !is_opponent)),
        forall|j: int|
            0 <= j < k ==> G::evaluation(
                G::successor(v, #[trigger] G::legal_moves(v)[j], !is_opponent),
            ) < G::evaluation(G::successor(v, G::legal_moves(v)[k], !is_opponent)),
{
    assert forall|j: int| 0 <= j < G::legal_moves(v).len() implies G::evaluation(
        G::successor(v, #[trigger] G::legal_moves(v)[j], !is_opponent),
    ) <= G::evaluation(G::successor(v, G::legal_moves(v)[k], !is_opponent)) by {
        assert(root_value::<G>(v, 1, is_opponent, j) <= root_value::<G>(v, 1, is_opponent, k));
    }
    assert forall|j: int| 0 <= j < k implies G::evaluation(
        G::successor(v, #[trigger] G::legal_moves(v)[j], !is_opponent),
    ) < G::evaluation(G::successor(v, G::legal_moves(v)[k], !is_opponent)) by {
        assert(root_value::<G>(v, 1, is_opponent, j) < root_value::<G>(v, 1, is_opponent, k));
    }
}

/// At most one legal move is the chosen one.
pub proof fn lemma_choice_unique<G: HeuristicGameTree>(
    v: G::V,
    depth: nat,
    is_opponent: bool,
    k1: int,
    k2: int,
)
    requires
        is_chosen::<G>(v, depth, is_opponent, k1),
        is_chosen::<G>(v, depth, is_opponent, k2),
    ensures
        k1 == k2,
{
    if k1 < k2 {
        assert(root_value::<G>(v, depth, is_opponent, k1) < root_value::<G>(
            v,
            depth,
            is_opponent,
            k2,
        ));
        assert(root_value::<G>(v, depth, is_opponent, k2) <= root_value::<G>(
            v,
            depth,
            is_opponent,
            k1,
        ));
    }
    if k2 < k1 {
        assert(root_value::<G>(v, depth, is_opponent, k2) < root_value::<G>(
            v,
            depth,
            is_opponent,
            k1,
        ));
        assert(root_value::<G>(v, depth, is_opponent, k1) <= root_value::<G>(
            v,
            depth,
            is_opponent,
            k2,
        ));
    }
}

/// The search is deterministic: what it answers is determined by the
/// position, the depth and the flag.
pub proof fn lemma_choice_determined<G: HeuristicGameTree>(
    v: G::V,
    depth: nat,
    is_opponent: bool,
    first: Option<G::Move>,
    second: Option<G::Move>,
)
    requires
        is_choice::<G>(v, depth, is_opponent, first),
        is_choice::<G>(v, depth, is_opponent, second),
    ensures
        first == second,
{
    if G::legal_moves(v).len() > 0 && depth > 0 {
        let k1 = choose|k: int|
            is_chosen::<G>(v, depth, is_opponent, k) && first == Some(
                #[trigger] G::legal_moves(v)[k],
            );
        let k2 = choose|k: int|
            is_chosen::<G>(v, depth, is_opponent, k) && second == Some(
                #[trigger] G::legal_moves(v)[k],
            );
        lemma_choice_unique::<G>(v, depth, is_opponent, k1, k2);
    }
}

/// The state that `m` leads to, made on a clone: `game` itself is left as it
/// is, and what is played on the state returned does not reach it.
pub fn branch<G: HeuristicGameTree>(game: &G, m: &G::Move, is_opponent: bool) -> (next: G)
    requires
        G::valid(game@),
        G::accepts(game@, *m),
    ensures
        next@ == G::successor(game@, *m, is_opponent),
{
    let mut next = game.clone();
    proof {
        G::lemma_clone(game, &next);
    }
    next.execute_move(m, is_opponent);
    next
}

/// Searches `game` `depth` plies deep within the window `alpha`, `beta` and
/// returns the value of the position. `is_opponent` says whether the node
/// is a maximizing one. The state itself is not changed: moves are tried on
/// clones.
pub fn minimax_helper<G: HeuristicGameTree>(
    game: &G,
    depth: usize,
    is_opponent: bool,
    alpha: isize,
    beta: isize,
) -> (value: isize)
    requires
        G::valid(game@),
    ensures
        value == search_value::<G>(game@, depth as nat, is_opponent, alpha as int, beta as int),
    decreases depth,
{
    if depth == 0 {
        return game.heuristic();
    }
    let moves = game.possible_moves();
    if moves.len() == 0 {
        return game.heuristic();
    }
    let ghost target = search_value::<G>(
        game@,
        depth as nat,
        is_opponent,
        alpha as int,
        beta as int,
    );
    let mut alpha = alpha;
    let mut beta = beta;
    let mut best = if is_opponent {
        isize::MIN
    } else {
        isize::MAX
    };
    let mut i: usize = 0;
    while i < moves.len()
        invariant_except_break
            target == scan_value::<G>(
                game@,
                depth as nat,
                is_opponent,
                i as nat,
                best as int,
                alpha as int,
                beta as int,
            ),
        invariant
            i <= moves.len(),
            depth > 0,
            G::valid(game@),
            moves@ == G::legal_moves(game@),
        ensures
            best == target,
        decreases moves.len() - i,
    {
        proof {
            G::lemma_legal_move(game@, moves@[i as int], !is_opponent);
        }
        let next_state = branch(game, &moves[i], !is_opponent);
        let h = minimax_helper(&next_state, depth - 1, false, alpha, beta);
        if is_opponent {
            if h > best {
                best = h;
            }
            if h > alpha {
                alpha = h;
            }
        } else {
            if h < best {
                best = h;
            }
            if h > beta {
                beta = h;
            }
        }
        if beta <= alpha {
            break ;
        }
        i += 1;
    }
    best
}

/// Chooses a move for the side to move by searching `depth` plies ahead.
///
/// Returns `None` exactly when no move is legal. At depth 0 the first legal
/// move is chosen. Otherwise each legal move is tried on a clone and the
/// position it leads to is searched `depth - 1` plies deep; the move of the
/// greatest value is chosen, and of several such the first. The state
/// itself is not changed.
///
/// The search of each position starts from a closed window, `alpha` at its
/// highest and `beta` at its lowest, so below the root it follows one line
/// of play: [`lemma_root_value_is_line_value`] says what value that gives a
/// move, and [`lemma_depth_one_optimal`] that at depth 1 the choice is the
/// best there is.
pub fn minimax_search<G: HeuristicGameTree>(game: &G, depth: usize, is_opponent: bool) -> (choice:
    Option<G::Move>)
    requires
        G::valid(game@),
    ensures
        is_choice::<G>(game@, depth as nat, is_opponent, choice),
        choice is None <==> G::legal_moves(game@).len() == 0,
        choice matches Some(m) ==> G::legal_moves(game@).contains(m),
{
    let mut moves = game.possible_moves();
    if moves.len() == 0 {
        return None;
    }
    if depth == 0 {
        return Some(moves.swap_remove(0));
    }
    let mut best_index: usize = 0;
    let mut best_value: isize = isize::MIN;
    let mut i: usize = 0;
    while i < moves.len()
        invariant
            i <= moves.len(),
            moves.len() > 0,
            depth > 0,
            G::valid(game@),
            moves@ == G::legal_moves(game@),
            i == 0 ==> best_index == 0,
            i > 0 ==> best_index < i && best_value == root_value::<G>(
                game@,
                depth as nat,
                is_opponent,
                best_index as int,
            ),
            forall|j: int|
                0 <= j < i ==> #[trigger] root_value::<G>(game@, depth as nat, is_opponent, j)
                    <= best_value,
            forall|j: int|
                0 <= j < best_index ==> #[trigger] root_value::<G>(
                    game@,
                    depth as nat,
                    is_opponent,
                    j,
                ) < best_value,
        decreases moves.len() - i,
    {
        proof {
            G::lemma_legal_move(game@, moves@[i as int], !is_opponent);
        }
        let next_state = branch(game, &moves[i], !is_opponent);
        let h = minimax_helper(&next_state, depth - 1, false, isize::MAX, isize::MIN);
        if i == 0 || h > best_value {
            best_index = i;
            best_value = h;
        }
        i += 1;
    }
    proof {
        assert(is_chosen::<G>(game@, depth as nat, is_opponent, best_index as int));
    }
    Some(moves.swap_remove(best_index))
}

} // verus!
